use vstd::prelude::*;

verus! {

/// Size policy behavior for a single dimension (`QSizePolicy::Policy`).
#[derive(Debug, Clone, Copy, PartialEq, Eq, Structural)]
pub enum Policy {
    /// The size hint is the only acceptable size. Cannot grow or shrink.
    Fixed,
    /// The size hint is minimal. Can grow freely, cannot shrink below the hint.
    Minimum,
    /// The size hint is maximal. Can shrink freely, cannot grow above the hint.
    Maximum,
    /// The size hint is preferred. Can grow or shrink.
    Preferred,
    /// The hint is sensible, but the widget should get as much space as possible.
    Expanding,
    /// The hint is minimal, but the widget expands as much as possible.
    MinimumExpanding,
    /// The hint is ignored. The widget gets as much space as possible.
    Ignored,
}

impl Policy {
    /// Whether the policy lets the size fall below the hint.
    pub open spec fn spec_can_shrink(&self) -> bool {
        self is Maximum || self is Preferred || self is Expanding || self is Ignored
    }

    /// Whether the policy lets the size rise above the hint.
    pub open spec fn spec_can_grow(&self) -> bool {
        self is Minimum || self is Preferred || self is Expanding || self is MinimumExpanding
            || self is Ignored
    }

    /// Whether the policy claims extra space aggressively.
    pub open spec fn spec_is_expanding(&self) -> bool {
        self is Expanding || self is MinimumExpanding || self is Ignored
    }

    /// Returns true if the policy permits shrinking below the size hint.
    #[verifier::when_used_as_spec(spec_can_shrink)]
    pub fn can_shrink(&self) -> (r: bool)
        ensures
            r == self.spec_can_shrink(),
    {
        match self {
            Policy::Maximum | Policy::Preferred | Policy::Expanding | Policy::Ignored => true,
            _ => false,
        }
    }

    /// Returns true if the policy permits growing beyond the size hint.
    #[verifier::when_used_as_spec(spec_can_grow)]
    pub fn can_grow(&self) -> (r: bool)
        ensures
            r == self.spec_can_grow(),
    {
        match self {
            Policy::Fixed | Policy::Maximum => false,
            _ => true,
        }
    }

    /// Returns true if the widget wants to expand aggressively into extra space.
    #[verifier::when_used_as_spec(spec_is_expanding)]
    pub fn is_expanding(&self) -> (r: bool)
        ensures
            r == self.spec_is_expanding(),
    {
        match self {
            Policy::Expanding | Policy::MinimumExpanding | Policy::Ignored => true,
            _ => false,
        }
    }
}

impl Default for Policy {
    fn default() -> (r: Policy)
        ensures
            r == Policy::Preferred,
    {
        Policy::Preferred
    }
}

/// 2D size policy for horizontal and vertical dimensions (`QSizePolicy`).
#[derive(Debug, Clone, Copy, PartialEq, Eq, Structural)]
pub struct QSizePolicy {
    pub horizontal: Policy,
    pub vertical: Policy,
    pub horizontal_stretch: u32,
    pub vertical_stretch: u32,
}

impl Default for QSizePolicy {
    fn default() -> (r: QSizePolicy)
        ensures
            r == QSizePolicy::spec_new(Policy::Preferred, Policy::Preferred),
    {
        QSizePolicy::new(Policy::Preferred, Policy::Preferred)
    }
}

impl QSizePolicy {
    /// The policy with the given directions and no stretch.
    pub open spec fn spec_new(horizontal: Policy, vertical: Policy) -> QSizePolicy {
        QSizePolicy { horizontal, vertical, horizontal_stretch: 0, vertical_stretch: 0 }
    }

    /// Creates a size policy with specified horizontal and vertical policies.
    pub fn new(horizontal: Policy, vertical: Policy) -> (r: Self)
        ensures
            r == Self::spec_new(horizontal, vertical),
    {
        QSizePolicy { horizontal, vertical, horizontal_stretch: 0, vertical_stretch: 0 }
    }

    /// Creates a fixed size policy for both dimensions.
    pub fn fixed() -> (r: Self)
        ensures
            r == Self::spec_new(Policy::Fixed, Policy::Fixed),
    {
        Self::new(Policy::Fixed, Policy::Fixed)
    }

    /// Creates a preferred size policy for both dimensions.
    pub fn preferred() -> (r: Self)
        ensures
            r == Self::spec_new(Policy::Preferred, Policy::Preferred),
    {
        Self::new(Policy::Preferred, Policy::Preferred)
    }

    /// Creates an expanding size policy for both dimensions.
    pub fn expanding() -> (r: Self)
        ensures
            r == Self::spec_new(Policy::Expanding, Policy::Expanding),
    {
        Self::new(Policy::Expanding, Policy::Expanding)
    }

    /// Configures stretch factors for horizontal and vertical directions.
    pub fn with_stretch(self, h_stretch: u32, v_stretch: u32) -> (r: Self)
        ensures
            r == (QSizePolicy {
                horizontal_stretch: h_stretch,
                vertical_stretch: v_stretch,
                ..self
            }),
    {
        let mut s = self;
        s.horizontal_stretch = h_stretch;
        s.vertical_stretch = v_stretch;
        s
    }
}

/// Swaps horizontal and vertical policies (`QSizePolicy::transpose`).
pub fn transposed_policy(policy: QSizePolicy) -> (r: QSizePolicy)
    ensures
        r.horizontal == policy.vertical,
        r.vertical == policy.horizontal,
        r.horizontal_stretch == policy.vertical_stretch,
        r.vertical_stretch == policy.horizontal_stretch,
{
    QSizePolicy {
        horizontal: policy.vertical,
        vertical: policy.horizontal,
        horizontal_stretch: policy.vertical_stretch,
        vertical_stretch: policy.horizontal_stretch,
    }
}

} // verus!
