//! Payloads of the events the app emits.
use vstd::prelude::*;

verus! {

/// The controller became unreachable, or reachable again.
#[derive(Debug, Clone)]
pub struct ConnectionEvent {
    pub url: String,
    pub error: Option<String>,
}

/// A group's selection changed without the user asking for it.
#[derive(Debug, Clone)]
pub struct AutoSwitch {
    pub group: String,
    pub from: String,
    pub to: String,
    pub from_country: String,
    pub to_country: String,
    pub at: i64,
}

pub struct AutoSwitchModel {
    pub group: Seq<char>,
    pub from: Seq<char>,
    pub to: Seq<char>,
    pub from_country: Seq<char>,
    pub to_country: Seq<char>,
    pub at: i64,
}

impl View for AutoSwitch {
    type V = AutoSwitchModel;

    open spec fn view(&self) -> AutoSwitchModel {
        AutoSwitchModel {
            group: self.group@,
            from: self.from@,
            to: self.to@,
            from_country: self.from_country@,
            to_country: self.to_country@,
            at: self.at,
        }
    }
}

impl AutoSwitch {
    /// A field-by-field copy.
    pub fn duplicate(&self) -> (r: Self)
        ensures
            r@ == self@,
    {
        AutoSwitch {
            group: self.group.clone(),
            from: self.from.clone(),
            to: self.to.clone(),
            from_country: self.from_country.clone(),
            to_country: self.to_country.clone(),
            at: self.at,
        }
    }
}

} // verus!
