//! A quota tracker that warns a [`Messenger`] as usage approaches its limit.

use vstd::prelude::*;

use crate::outbox::Outbox;
use crate::float_ratio::{
    as_f64, f64_unit, k_ninety, k_one, k_three_quarters, lemma_as_f64_exact, lemma_as_f64_monotone, quotient_reaches, reaches,
    to_f64_value,
};

verus! {

/// Something that can deliver a text message.
///
/// Implementors only get `&self`, so a recording implementation (a mock in
/// tests, for example) keeps its log behind interior mutability. Each
/// implementor says, through `delivered`, what it means for a message to have
/// reached it, and `send` promises that the message it is handed has.
pub trait Messenger {
    /// `msg` has been handed to this messenger.
    spec fn delivered(&self, msg: Seq<char>) -> bool;

    /// Hands `msg` to the messenger.
    fn send(&self, msg: &str)
        ensures
            self.delivered(msg@),
    ;
}

/// How far usage has gone towards the limit.
#[derive(Clone, Copy, Debug, PartialEq, Eq, Structural)]
pub enum Alert {
    /// At least 75% of the limit is used.
    Warning,
    /// At least 90% of the limit is used.
    Critical,
    /// The limit is reached or exceeded.
    OverQuota,
}

/// The alert for a usage of `value` out of `max`, judged as the ratio
/// `value as f64 / max as f64`: over quota from `1.0`, critical from `0.9`,
/// a warning from `0.75`, and nothing below that (or when the ratio is NaN,
/// for zero out of zero).
pub open spec fn alert_level(value: nat, max: nat) -> Option<Alert> {
    let a = as_f64(value);
    let b = as_f64(max);
    if quotient_reaches(a, b, k_one()) {
        Some(Alert::OverQuota)
    } else if quotient_reaches(a, b, k_ninety()) {
        Some(Alert::Critical)
    } else if quotient_reaches(a, b, k_three_quarters()) {
        Some(Alert::Warning)
    } else {
        None
    }
}

/// The messages that an alert calls for: its text, once, or nothing.
pub open spec fn alert_messages(a: Option<Alert>) -> Seq<Seq<char>> {
    match a {
        Some(alert) => seq![alert.text()],
        None => Seq::empty(),
    }
}

/// The rank of an alert: no alert ranks lowest, over quota highest.
pub open spec fn severity(a: Option<Alert>) -> nat {
    match a {
        None => 0,
        Some(Alert::Warning) => 1,
        Some(Alert::Critical) => 2,
        Some(Alert::OverQuota) => 3,
    }
}

impl Alert {
    /// The text sent to the messenger for this alert.
    pub open spec fn text(self) -> Seq<char> {
        match self {
            Alert::OverQuota => "エラー：割り当てを超えています"@,
            Alert::Critical => "緊急警告：割り当ての90%以上を使用してしまいました"@,
            Alert::Warning => "警告：割り当ての75%以上を使用してしましました"@,
        }
    }

    /// The text sent to the messenger for this alert.
    pub fn message(&self) -> (msg: &'static str)
        ensures
            msg@ == self.text(),
    {
        match self {
            Alert::OverQuota => "エラー：割り当てを超えています",
            Alert::Critical => "緊急警告：割り当ての90%以上を使用してしまいました",
            Alert::Warning => "警告：割り当ての75%以上を使用してしましました",
        }
    }
}

/// The alert for a usage of `value` out of `max`, as the ratio of the two
/// converted to `f64` compares with `1.0`, `0.9` and `0.75`; the doubles are
/// modelled exactly with integers.
pub fn alert_for(value: usize, max: usize) -> (a: Option<Alert>)
    ensures
        a == alert_level(value as nat, max as nat),
{
    let v = to_f64_value(value);
    let m = to_f64_value(max);
    if reaches(v, m, 0x20_0000_0000_0000) {
        Some(Alert::OverQuota)
    } else if reaches(v, m, 8106479329266893) {
        Some(Alert::Critical)
    } else if reaches(v, m, 6755399441055744) {
        Some(Alert::Warning)
    } else {
        None
    }
}

/// Tracks a usage value against a fixed limit and tells the messenger when
/// the usage crosses 75%, 90% or 100% of it.
pub struct LimitTracker<'a, T: Messenger> {
    outbox: Outbox<'a, T>,
    value: usize,
    max: usize,
}

impl<'a, T: Messenger> LimitTracker<'a, T> {
    /// The current usage.
    pub closed spec fn used(&self) -> nat {
        self.value as nat
    }

    /// The limit.
    pub closed spec fn limit(&self) -> nat {
        self.max as nat
    }

    /// The messenger that receives the alerts.
    pub closed spec fn target(&self) -> &'a T {
        self.outbox.target()
    }

    /// The messages this tracker has sent to its messenger, oldest first.
    pub closed spec fn sent(&self) -> Seq<Seq<char>> {
        self.outbox.sent()
    }

    /// A tracker with no usage yet, reporting to `messenger`.
    pub fn new(messenger: &'a T, max: usize) -> (t: LimitTracker<'a, T>)
        ensures
            t.used() == 0,
            t.limit() == max,
            t.target() == messenger,
            t.sent() == Seq::<Seq<char>>::empty(),
    {
        LimitTracker { outbox: Outbox::new(messenger), value: 0, max }
    }

    /// Records `value` as the current usage and, when it reaches 75% of the
    /// limit or more, sends the message of the alert it calls for: exactly
    /// one message then, and none below 75%.
    pub fn set_value(&mut self, value: usize)
        ensures
            final(self).used() == value,
            final(self).limit() == old(self).limit(),
            final(self).target() == old(self).target(),
            final(self).sent() == old(self).sent() + alert_messages(
                alert_level(value as nat, old(self).limit()),
            ),
            alert_level(value as nat, old(self).limit()) matches Some(a)
                ==> old(self).target().delivered(a.text()),
    {
        self.value = value;
        let alert = alert_for(self.value, self.max);
        match alert {
            Some(a) => self.outbox.deliver(a.message()),
            None => {},
        }
    }
}

/// Raising the usage never lowers the alert: for a fixed limit, the rank of
/// the alert grows with the value.
pub proof fn lemma_alert_monotone(v1: nat, v2: nat, max: nat)
    requires
        v1 <= v2,
    ensures
        severity(alert_level(v1, max)) <= severity(alert_level(v2, max)),
{
    lemma_as_f64_monotone(v1, v2);
}

/// A tracker that has just been made sends nothing: zero usage is below
/// every threshold, whatever the limit.
pub proof fn lemma_no_alert_at_zero(max: nat)
    ensures
        alert_level(0, max) == None::<Alert>,
{
    assert(f64_unit(0) == 1);
    assert(0nat / 1 == 0 && 0nat % 1 == 0);
    assert(as_f64(0) == 0);
    let b = as_f64(max);
    assert forall|k: nat| k >= 1 && b > 0 implies #[trigger] ((2 * k - 1) * b) > 0 by {
        assert((2 * k - 1) * b > 0) by (nonlinear_arith)
            requires
                k >= 1,
                b > 0,
        ;
    }
    assert(!quotient_reaches(0, b, k_one()));
    assert(!quotient_reaches(0, b, k_ninety()));
    assert(!quotient_reaches(0, b, k_three_quarters()));
}

/// For limits below 2^51, where the conversions to `f64` and the threshold
/// comparisons are exact, the alert follows the plain percentages: over quota
/// from 100% (any usage of a zero limit), critical from 90% up to 100%, a
/// warning from 75% up to 90%, and none below 75% (or with zero usage).
pub proof fn lemma_alert_thresholds(value: nat, max: nat)
    requires
        max < 0x8_0000_0000_0000,
    ensures
        (alert_level(value, max) == Some(Alert::OverQuota)) <==> (value >= max && value > 0),
        (alert_level(value, max) == Some(Alert::Critical)) <==> (10 * value >= 9 * max && value
            < max),
        (alert_level(value, max) == Some(Alert::Warning)) <==> (4 * value >= 3 * max && 10 * value
            < 9 * max),
        (alert_level(value, max) == None::<Alert>) <==> (4 * value < 3 * max || value == 0),
{
    lemma_as_f64_exact(max);
    let b = max;
    let a = as_f64(value);
    if value >= 0x20_0000_0000_0000 {
        lemma_as_f64_exact(0x1F_FFFF_FFFF_FFFF);
        lemma_as_f64_monotone(0x1F_FFFF_FFFF_FFFF, value);
        assert(0x40_0000_0000_0000 * a >= 0x3F_FFFF_FFFF_FFFF * b) by (nonlinear_arith)
            requires
                a >= 0x1F_FFFF_FFFF_FFFF,
                b < 0x8_0000_0000_0000,
        ;
    } else {
        lemma_as_f64_exact(value);
        assert(0x40_0000_0000_0000 * a >= 0x3F_FFFF_FFFF_FFFF * b <==> a >= b) by (nonlinear_arith)
            requires
                b < 0x8_0000_0000_0000,
        ;
        if b > 0 {
            assert(0x40_0000_0000_0000 * a > 16212958658533785 * b <==> 10 * a >= 9 * b) by (nonlinear_arith)
                requires
                    0 < b < 0x8_0000_0000_0000,
            ;
        }
        assert(0x40_0000_0000_0000 * a >= 0x2F_FFFF_FFFF_FFFF * b <==> 4 * a >= 3 * b) by (nonlinear_arith)
            requires
                b < 0x8_0000_0000_0000,
        ;
    }
    assert(k_one() == 0x20_0000_0000_0000 && k_ninety() == 8106479329266893
        && k_three_quarters() == 0x18_0000_0000_0000);
}

/// What one call of `set_value` sends, for limits below 2^51: exactly one
/// message when the usage is positive and at least 75% of the limit, none
/// otherwise; the over-quota text from 100%, the critical text from 90% up to
/// 100%, the warning text from 75% up to 90%.
pub proof fn lemma_set_value_messages(value: nat, max: nat)
    requires
        max < 0x8_0000_0000_0000,
    ensures
        alert_messages(alert_level(value, max)).len() == (if 4 * value >= 3 * max && value > 0 {
            1nat
        } else {
            0nat
        }),
        value >= max && value > 0 ==> alert_messages(alert_level(value, max)) == seq![
            "エラー：割り当てを超えています"@,
        ],
        10 * value >= 9 * max && value < max ==> alert_messages(alert_level(value, max)) == seq![
            "緊急警告：割り当ての90%以上を使用してしまいました"@,
        ],
        4 * value >= 3 * max && 10 * value < 9 * max ==> alert_messages(alert_level(value, max))
            == seq!["警告：割り当ての75%以上を使用してしましました"@],
        4 * value < 3 * max ==> alert_messages(alert_level(value, max)) == Seq::<
            Seq<char>,
        >::empty(),
{
    lemma_alert_thresholds(value, max);
}

} // verus!
