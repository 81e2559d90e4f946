//! Quota tracking: a value against a maximum, with warnings sent through a
//! caller-supplied messenger as thresholds are crossed.

use vstd::prelude::*;

verus! {

/// A sink for warning messages; implemented by the tracker's user.
pub trait Messenger {
    /// Delivers one message.
    fn send(&self, msg: &str);
}

/// How far along its quota a value is.
#[derive(Debug, PartialEq, Eq, Structural)]
pub enum QuotaLevel {
    /// Below three quarters of the maximum.
    Normal,
    /// At least three quarters of the maximum, but under nine tenths.
    ThreeQuarters,
    /// At least nine tenths of the maximum, but under all of it.
    NineTenths,
    /// The whole maximum or more.
    Exceeded,
}

/// Where `value` stands relative to `max`, by exact rational comparison of
/// `value / max` against 1, 9/10 and 3/4. A positive value against a zero
/// maximum counts as exceeded; zero against zero is no use at all.
pub open spec fn spec_quota_level(value: nat, max: nat) -> QuotaLevel {
    if max == 0 {
        if value > 0 {
            QuotaLevel::Exceeded
        } else {
            QuotaLevel::Normal
        }
    } else if value >= max {
        QuotaLevel::Exceeded
    } else if 10 * value >= 9 * max {
        QuotaLevel::NineTenths
    } else if 4 * value >= 3 * max {
        QuotaLevel::ThreeQuarters
    } else {
        QuotaLevel::Normal
    }
}

/// Classifies `value` against `max`.
pub fn quota_level(value: usize, max: usize) -> (l: QuotaLevel)
    ensures
        l == spec_quota_level(value as nat, max as nat),
{
    if max == 0 {
        if value > 0 {
            QuotaLevel::Exceeded
        } else {
            QuotaLevel::Normal
        }
    } else if value >= max {
        QuotaLevel::Exceeded
    } else if (value as u128) * 10 >= (max as u128) * 9 {
        QuotaLevel::NineTenths
    } else if (value as u128) * 4 >= (max as u128) * 3 {
        QuotaLevel::ThreeQuarters
    } else {
        QuotaLevel::Normal
    }
}

/// The warning owed at each quota level: the over-quota error, the nine
/// tenths warning, the three quarters warning, or none at all.
pub fn warning_message(level: QuotaLevel) -> (r: Option<&'static str>)
    ensures
        level == QuotaLevel::Exceeded ==> (r matches Some(m) && m@ == "出错：你已超出你的配额！"@),
        level == QuotaLevel::NineTenths ==> (r matches Some(m) && m@
            == "紧急警告：你已用掉你配额的 90% ！"@),
        level == QuotaLevel::ThreeQuarters ==> (r matches Some(m) && m@
            == "警告：你已用掉你配额的 75% ！"@),
        level == QuotaLevel::Normal ==> r is None,
{
    match level {
        QuotaLevel::Exceeded => Some("出错：你已超出你的配额！"),
        QuotaLevel::NineTenths => Some("紧急警告：你已用掉你配额的 90% ！"),
        QuotaLevel::ThreeQuarters => Some("警告：你已用掉你配额的 75% ！"),
        QuotaLevel::Normal => None,
    }
}

/// Tracks a value against a fixed maximum and warns through the messenger
/// whenever the new value stands at three quarters, nine tenths, or the
/// whole of the quota.
pub struct LimitTracker<'a, T: Messenger> {
    messenger: &'a T,
    value: usize,
    max: usize,
}

impl<'a, T> LimitTracker<'a, T> where T: Messenger {
    /// The current value.
    pub closed spec fn spec_value(&self) -> usize {
        self.value
    }

    /// The fixed maximum.
    pub closed spec fn spec_max(&self) -> usize {
        self.max
    }

    /// A tracker starting at zero.
    pub fn new(messenger: &'a T, max: usize) -> (t: LimitTracker<'a, T>)
        ensures
            t.spec_value() == 0,
            t.spec_max() == max,
    {
        LimitTracker { messenger, value: 0, max }
    }

    /// Stores the new value and sends exactly the warning that
    /// [`warning_message`] fixes for the value's quota level — nothing when
    /// the level is normal. The messenger is a caller-supplied sink, so what
    /// is handed to it is pinned by `warning_message`'s contract; the send
    /// itself has no observable model here.
    pub fn set_value(&mut self, value: usize)
        ensures
            final(self).spec_value() == value,
            final(self).spec_max() == old(self).spec_max(),
    {
        self.value = value;
        let level = quota_level(value, self.max);
        match warning_message(level) {
            Some(msg) => {
                self.messenger.send(msg);
            },
            None => {},
        }
    }
}

} // verus!
