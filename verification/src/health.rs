//! Health of a device.

use vstd::prelude::*;

use crate::v1beta1::HEALTHY;
use crate::v1beta1::UNHEALTHY;

verus! {

/// Whether a device can be handed out.
#[derive(Clone, Copy, Debug, PartialEq, Eq, Structural)]
pub enum Health {
    Healthy,
    Unhealthy,
}

impl Health {
    /// The word the kubelet knows this health by.
    pub open spec fn text(self) -> Seq<char> {
        match self {
            Health::Healthy => HEALTHY@,
            Health::Unhealthy => UNHEALTHY@,
        }
    }

    /// The word the kubelet knows this health by.
    pub fn as_str(&self) -> (r: &'static str)
        ensures
            r@ == self.text(),
    {
        match self {
            Health::Healthy => HEALTHY,
            Health::Unhealthy => UNHEALTHY,
        }
    }

    /// The word the kubelet knows this health by, as owned text.
    pub fn to_string(&self) -> (r: String)
        ensures
            r@ == self.text(),
    {
        String::from_str(self.as_str())
    }
}

/// The kubelet can tell the two healths apart.
pub proof fn health_text_is_injective(a: Health, b: Health)
    ensures
        a.text() == b.text() ==> a == b,
{
    reveal_strlit("Healthy");
    reveal_strlit("Unhealthy");
    assert(HEALTHY@.len() == 7);
    assert(UNHEALTHY@.len() == 9);
}

/// The words that the kubelet knows: "Healthy" for a device that can be handed
/// out, "Unhealthy" for any other.
pub proof fn health_words(health: Health)
    ensures
        health is Healthy <==> health.text() == "Healthy"@,
        health is Unhealthy <==> health.text() == "Unhealthy"@,
{
    health_text_is_injective(Health::Healthy, Health::Unhealthy);
}

} // verus!
