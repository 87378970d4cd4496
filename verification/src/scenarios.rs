//! Names of the demo generators made from scenario templates.
use vstd::prelude::*;
use vstd::string::*;
use crate::text::{decimal, decimal_string, push_char};

verus! {

/// `n` in decimal with at least two digits (`{:02}`).
pub open spec fn two_digits(n: nat) -> Seq<char> {
    if n < 10 {
        seq!['0'] + decimal(n)
    } else {
        decimal(n)
    }
}

/// The labels of one instance of a scenario template.
pub struct InstanceLabels {
    /// `{prefix}-{inst:02}`
    pub id: String,
    /// `{name} #{inst}`
    pub name: String,
    /// `signals/{prefix}-{inst:02}`
    pub topic: String,
    /// `min(70 + 15 * inst, 100)`
    pub quality: u8,
}

/// The id, name, topic and base quality of instance `inst` of the scenario
/// template with id prefix `prefix` and display name `name`.
pub fn scenario_instance(prefix: &str, name: &str, inst: u64) -> (l: InstanceLabels)
    ensures
        l.id@ == prefix@ + seq!['-'] + two_digits(inst as nat),
        l.name@ == name@ + " #"@ + decimal(inst as nat),
        l.topic@ == "signals/"@ + prefix@ + seq!['-'] + two_digits(inst as nat),
        l.quality == if 70 + 15 * inst < 100 { 70 + 15 * inst } else { 100 },
{
    let digits = decimal_string(inst);
    let mut padded = String::new();
    if inst < 10 {
        push_char(&mut padded, '0');
    }
    padded.append(digits.as_str());
    assert(padded@ =~= two_digits(inst as nat));
    let mut id = String::from_str(prefix);
    push_char(&mut id, '-');
    id.append(padded.as_str());
    let mut n = String::from_str(name);
    n.append(" #");
    n.append(digits.as_str());
    let mut topic = String::from_str("signals/");
    topic.append(id.as_str());
    assert(topic@ =~= "signals/"@ + prefix@ + seq!['-'] + two_digits(inst as nat));
    let quality: u8 = if inst < 2 { (70 + 15 * inst) as u8 } else { 100 };
    InstanceLabels { id, name: n, topic, quality }
}

} // verus!
