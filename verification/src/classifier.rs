use vstd::prelude::*;

use crate::fences::{append_chars, spec_strip_code_fences, strip_code_fences};
use crate::text::{chars_of, contains, contains_chars, string_of};

verus! {

/// One verdict of the model: the flag (`is_ad` of an ad signal, `is_worth` of a
/// worth signal), the confidence as the bit pattern of an `f32`, and the reason.
#[derive(Debug)]
pub struct Signal {
    pub flag: bool,
    pub confidence_bits: u32,
    pub reason: String,
}

/// The shape of a model reply once its JSON has been read.
#[derive(Debug)]
pub enum ParsedReply {
    /// The reply is an ad signal (`is_ad`, `confidence`, `reason`).
    Ad(Signal),
    /// The reply is not JSON.
    Malformed,
    /// The reply is a JSON object that is not an ad signal; the worth signal
    /// (`is_worth`, `confidence`, `reason`) when the object is one.
    Object(Option<Signal>),
    /// The reply is a JSON array: its elements that are ad signals and its elements
    /// that are worth signals, each in array order.
    Array { ads: Vec<Signal>, worths: Vec<Signal> },
    /// The reply is JSON but neither an object nor an array.
    Scalar,
}

/// The classification of one item. Confidences are bit patterns of `f32` values.
#[derive(Debug)]
pub struct ClassifierResponse {
    pub is_ad: bool,
    pub confidence_bits: u32,
    pub reason: String,
    pub is_worth: Option<bool>,
    pub worth_confidence_bits: Option<u32>,
    pub worth_reason: Option<String>,
}

pub struct ClassifierResponseView {
    pub is_ad: bool,
    pub confidence_bits: u32,
    pub reason: Seq<char>,
    pub is_worth: Option<bool>,
    pub worth_confidence_bits: Option<u32>,
    pub worth_reason: Option<Seq<char>>,
}

impl View for ClassifierResponse {
    type V = ClassifierResponseView;

    open spec fn view(&self) -> ClassifierResponseView {
        ClassifierResponseView {
            is_ad: self.is_ad,
            confidence_bits: self.confidence_bits,
            reason: self.reason@,
            is_worth: self.is_worth,
            worth_confidence_bits: self.worth_confidence_bits,
            worth_reason: match self.worth_reason {
                Some(r) => Some(r@),
                None => None,
            },
        }
    }
}

/// Why a model reply gives no classification.
#[derive(Debug, PartialEq, Eq, Structural, Clone, Copy)]
pub enum ReplyError {
    /// The reply is not JSON.
    Malformed,
    /// The reply is neither a signal object nor an array.
    UnexpectedShape,
    /// The reply is an array without a single ad or worth signal.
    NoSignals,
}

impl ReplyError {
    /// The message that reports the error for the raw reply `raw`. A malformed
    /// reply also names the errors of reading it as a signal (`primary`) and as
    /// JSON (`secondary`).
    pub fn message(&self, primary: &str, secondary: &str, raw: &str) -> (r: String)
        ensures
            r@ == match self {
                ReplyError::Malformed => "parse_classifier_response_failed: "@ + primary@
                    + " (array_parse_error: "@ + secondary@ + ") raw="@ + raw@,
                ReplyError::UnexpectedShape =>
                    "parse_classifier_response_failed: expected ad/worth object or array raw="@
                    + raw@,
                ReplyError::NoSignals =>
                    "parse_classifier_response_failed: no valid ad/worth objects in array raw="@
                    + raw@,
            },
    {
        match self {
            ReplyError::Malformed => {
                let mut m = "parse_classifier_response_failed: ".to_owned();
                m.append(primary);
                m.append(" (array_parse_error: ");
                m.append(secondary);
                m.append(") raw=");
                m.append(raw);
                m
            },
            ReplyError::UnexpectedShape => {
                let mut m =
                    "parse_classifier_response_failed: expected ad/worth object or array raw=".to_owned();
                m.append(raw);
                m
            },
            ReplyError::NoSignals => {
                let mut m =
                    "parse_classifier_response_failed: no valid ad/worth objects in array raw=".to_owned();
                m.append(raw);
                m
            },
        }
    }
}

/// The position of an `f32` bit pattern in the order of `f32::total_cmp`: the
/// bits read as a signed number, with the magnitude bits flipped when the sign bit is set.
pub open spec fn total_order_key(bits: u32) -> int {
    if bits < 0x8000_0000 {
        bits as int
    } else {
        0x7FFF_FFFF - bits
    }
}

/// Computes `total_order_key`.
pub fn order_key(bits: u32) -> (r: i64)
    ensures
        r == total_order_key(bits),
{
    if bits < 0x8000_0000 {
        bits as i64
    } else {
        0x7FFF_FFFFi64 - (bits as i64)
    }
}

/// Whether a signal takes part in a choice: every signal when `want` is `None`,
/// otherwise those whose flag is `want`.
pub open spec fn eligible(s: Signal, want: Option<bool>) -> bool {
    want matches Some(f) ==> s.flag == f
}

/// Whether `i` is what `Iterator::max_by` with `f32::total_cmp` returns among the
/// eligible signals: an eligible signal of greatest confidence, the last of those.
pub open spec fn is_last_max(s: Seq<Signal>, want: Option<bool>, i: int) -> bool {
    &&& 0 <= i < s.len()
    &&& eligible(s[i], want)
    &&& forall|j: int|
        0 <= j < s.len() && eligible(#[trigger] s[j], want) ==> total_order_key(
            s[j].confidence_bits,
        ) <= total_order_key(s[i].confidence_bits)
    &&& forall|j: int|
        i < j < s.len() && eligible(#[trigger] s[j], want) ==> total_order_key(
            s[j].confidence_bits,
        ) < total_order_key(s[i].confidence_bits)
}

pub open spec fn has_eligible(s: Seq<Signal>, want: Option<bool>) -> bool {
    exists|i: int| 0 <= i < s.len() && eligible(#[trigger] s[i], want)
}

/// The signal that `max_by` picks among the eligible ones, if any is eligible.
pub open spec fn best(s: Seq<Signal>, want: Option<bool>) -> Option<Signal> {
    if has_eligible(s, want) {
        Some(s[choose|i: int| is_last_max(s, want, i)])
    } else {
        None
    }
}

/// The signal chosen from a list: the best one whose flag is `preferred`, or else
/// the best one of all.
pub open spec fn preferred_best(s: Seq<Signal>, preferred: bool) -> Option<Signal> {
    if has_eligible(s, Some(preferred)) {
        best(s, Some(preferred))
    } else {
        best(s, None)
    }
}

proof fn lemma_last_max_unique(s: Seq<Signal>, want: Option<bool>, i: int, k: int)
    requires
        is_last_max(s, want, i),
        is_last_max(s, want, k),
    ensures
        i == k,
{
    if i < k {
        assert(eligible(s[k], want));
    } else if k < i {
        assert(eligible(s[i], want));
    }
}

/// The index of the signal that `max_by` would pick among the eligible ones.
pub fn best_index(s: &Vec<Signal>, want: Option<bool>) -> (r: Option<usize>)
    ensures
        r is None <==> !has_eligible(s@, want),
        r matches Some(i) ==> is_last_max(s@, want, i as int) && best(s@, want) == Some(
            s@[i as int],
        ),
{
    let mut found: Option<usize> = None;
    let mut found_key: i64 = 0;
    let mut i: usize = 0;
    while i < s.len()
        invariant
            i <= s.len(),
            found is None ==> forall|j: int| 0 <= j < i ==> !eligible(#[trigger] s@[j], want),
            found matches Some(b) ==> {
                &&& b < i
                &&& found_key == total_order_key(s@[b as int].confidence_bits)
                &&& is_last_max(s@.take(i as int), want, b as int)
            },
        decreases s.len() - i,
    {
        let ok = match want {
            Some(f) => s[i].flag == f,
            None => true,
        };
        let ghost prev = found;
        if ok {
            let k = order_key(s[i].confidence_bits);
            let take_it = match found {
                None => true,
                Some(_) => k >= found_key,
            };
            if take_it {
                found = Some(i);
                found_key = k;
            }
        }
        proof {
            let t = s@.take(i + 1);
            assert(t.take(i as int) =~= s@.take(i as int));
            assert forall|j: int| 0 <= j < i implies #[trigger] t[j] == s@.take(i as int)[j] by {}
            assert(t[i as int] == s@[i as int]);
            if let Some(b) = found {
                assert forall|j: int| 0 <= j < t.len() && eligible(#[trigger] t[j], want) implies
                    total_order_key(t[j].confidence_bits) <= total_order_key(
                        t[b as int].confidence_bits,
                    ) by {
                    if j < i {
                        assert(t[j] == s@.take(i as int)[j]);
                    }
                }
                assert forall|j: int| b < j < t.len() && eligible(#[trigger] t[j], want) implies
                    total_order_key(t[j].confidence_bits) < total_order_key(
                        t[b as int].confidence_bits,
                    ) by {
                    if j < i {
                        assert(t[j] == s@.take(i as int)[j]);
                    }
                }
            }
        }
        i += 1;
    }
    assert(s@.take(s.len() as int) =~= s@);
    match found {
        Some(b) => {
            assert(eligible(s@[b as int], want));
            assert(has_eligible(s@, want));
            proof {
                let c = choose|c: int| is_last_max(s@, want, c);
                lemma_last_max_unique(s@, want, b as int, c);
            }
            Some(b)
        },
        None => None,
    }
}

/// The choice among a list of signals: the best with the preferred flag, else the best of all.
pub fn preferred_index(s: &Vec<Signal>, preferred: bool) -> (r: Option<usize>)
    ensures
        r is None <==> preferred_best(s@, preferred) is None,
        r matches Some(i) ==> i < s.len() && preferred_best(s@, preferred) == Some(s@[i as int]),
{
    match best_index(s, Some(preferred)) {
        Some(i) => Some(i),
        None => best_index(s, None),
    }
}

/// The classification that an ad signal gives.
pub open spec fn from_ad(a: Signal) -> ClassifierResponseView {
    ClassifierResponseView {
        is_ad: a.flag,
        confidence_bits: a.confidence_bits,
        reason: a.reason@,
        is_worth: None,
        worth_confidence_bits: None,
        worth_reason: None,
    }
}

/// The classification that a lone worth signal gives: not an ad, with the worth
/// signal's confidence and reason.
pub open spec fn from_worth(w: Signal) -> ClassifierResponseView {
    ClassifierResponseView {
        is_ad: false,
        confidence_bits: w.confidence_bits,
        reason: w.reason@,
        is_worth: Some(w.flag),
        worth_confidence_bits: Some(w.confidence_bits),
        worth_reason: Some(w.reason@),
    }
}

/// The classification from the chosen ad signal and the chosen worth signal of an
/// array: the ad signal decides `is_ad`, confidence and reason when there is one,
/// else the worth signal does (`0.0` and `no_reason` when neither is there).
pub open spec fn from_choices(a: Option<Signal>, w: Option<Signal>) -> ClassifierResponseView {
    ClassifierResponseView {
        is_ad: a matches Some(x) && x.flag,
        confidence_bits: match a {
            Some(x) => x.confidence_bits,
            None => match w {
                Some(y) => y.confidence_bits,
                None => 0,
            },
        },
        reason: match a {
            Some(x) => x.reason@,
            None => match w {
                Some(y) => y.reason@,
                None => "no_reason"@,
            },
        },
        is_worth: match w {
            Some(y) => Some(y.flag),
            None => None,
        },
        worth_confidence_bits: match w {
            Some(y) => Some(y.confidence_bits),
            None => None,
        },
        worth_reason: match w {
            Some(y) => Some(y.reason@),
            None => None,
        },
    }
}

/// The classification a parsed reply gives, or why it gives none.
///
/// In an array the ad signal chosen is the most confident one that says "ad" (or
/// the most confident of all when none does), and the worth signal chosen is the
/// most confident one that says "not worth" (or the most confident of all); among
/// equally confident signals the last one counts, confidence being ordered as
/// `f32::total_cmp` orders it.
pub open spec fn spec_interpret(parsed: ParsedReply) -> Result<ClassifierResponseView, ReplyError> {
    match parsed {
        ParsedReply::Ad(a) => Ok(from_ad(a)),
        ParsedReply::Malformed => Err(ReplyError::Malformed),
        ParsedReply::Object(Some(w)) => Ok(from_worth(w)),
        ParsedReply::Object(None) => Err(ReplyError::UnexpectedShape),
        ParsedReply::Scalar => Err(ReplyError::UnexpectedShape),
        ParsedReply::Array { ads, worths } => {
            if ads@.len() == 0 && worths@.len() == 0 {
                Err(ReplyError::NoSignals)
            } else {
                Ok(from_choices(preferred_best(ads@, true), preferred_best(worths@, false)))
            }
        },
    }
}

fn copy_signal_text(s: &Signal) -> (r: String)
    ensures
        r@ == s.reason@,
{
    s.reason.clone()
}

/// Turns a parsed model reply into a classification, as `spec_interpret` says.
pub fn interpret_reply(parsed: ParsedReply) -> (r: Result<ClassifierResponse, ReplyError>)
    ensures
        match r {
            Ok(c) => spec_interpret(parsed) == Ok::<ClassifierResponseView, ReplyError>(c@),
            Err(e) => spec_interpret(parsed) == Err::<ClassifierResponseView, ReplyError>(e),
        },
{
    match parsed {
        ParsedReply::Ad(a) => Ok(
            ClassifierResponse {
                is_ad: a.flag,
                confidence_bits: a.confidence_bits,
                reason: a.reason,
                is_worth: None,
                worth_confidence_bits: None,
                worth_reason: None,
            },
        ),
        ParsedReply::Malformed => Err(ReplyError::Malformed),
        ParsedReply::Object(Some(w)) => {
            let reason = copy_signal_text(&w);
            Ok(
                ClassifierResponse {
                    is_ad: false,
                    confidence_bits: w.confidence_bits,
                    reason,
                    is_worth: Some(w.flag),
                    worth_confidence_bits: Some(w.confidence_bits),
                    worth_reason: Some(w.reason),
                },
            )
        },
        ParsedReply::Object(None) => Err(ReplyError::UnexpectedShape),
        ParsedReply::Scalar => Err(ReplyError::UnexpectedShape),
        ParsedReply::Array { ads, worths } => {
            if ads.len() == 0 && worths.len() == 0 {
                return Err(ReplyError::NoSignals);
            }
            let a = preferred_index(&ads, true);
            let w = preferred_index(&worths, false);
            let is_ad = match a {
                Some(i) => ads[i].flag,
                None => false,
            };
            let confidence_bits = match a {
                Some(i) => ads[i].confidence_bits,
                None => match w {
                    Some(j) => worths[j].confidence_bits,
                    None => 0,
                },
            };
            let reason = match a {
                Some(i) => copy_signal_text(&ads[i]),
                None => match w {
                    Some(j) => copy_signal_text(&worths[j]),
                    None => "no_reason".to_owned(),
                },
            };
            let (is_worth, worth_confidence_bits, worth_reason) = match w {
                Some(j) => (
                    Some(worths[j].flag),
                    Some(worths[j].confidence_bits),
                    Some(copy_signal_text(&worths[j])),
                ),
                None => (None, None, None),
            };
            let r = ClassifierResponse {
                is_ad,
                confidence_bits,
                reason,
                is_worth,
                worth_confidence_bits,
                worth_reason,
            };
            assert(r@ == from_choices(preferred_best(ads@, true), preferred_best(worths@, false)));
            Ok(r)
        },
    }
}


/// The text without its trailing `/` characters, as `str::trim_end_matches('/')` gives it.
pub open spec fn trim_end_slashes(s: Seq<char>) -> Seq<char>
    decreases s.len(),
{
    if s.len() > 0 && s.last() == '/' {
        trim_end_slashes(s.drop_last())
    } else {
        s
    }
}

proof fn lemma_key_injective(a: u32, b: u32)
    requires
        total_order_key(a) == total_order_key(b),
    ensures
        a == b,
{
}

proof fn lemma_last_max_exists(s: Seq<Signal>, want: Option<bool>)
    requires
        has_eligible(s, want),
    ensures
        exists|i: int| is_last_max(s, want, i),
    decreases s.len(),
{
    let n = s.len() - 1;
    let t = s.drop_last();
    let x = s[n];
    assert forall|j: int| 0 <= j < n implies #[trigger] t[j] == s[j] by {}
    if !eligible(x, want) {
        let k = choose|k: int| 0 <= k < s.len() && eligible(#[trigger] s[k], want);
        assert(k < n);
        assert(eligible(t[k], want));
        lemma_last_max_exists(t, want);
        let i = choose|i: int| is_last_max(t, want, i);
        assert(is_last_max(s, want, i)) by {
            assert forall|j: int| 0 <= j < s.len() && eligible(#[trigger] s[j], want) implies
                total_order_key(s[j].confidence_bits) <= total_order_key(s[i].confidence_bits) by {
                assert(j < n);
                assert(eligible(t[j], want));
            }
            assert forall|j: int| i < j < s.len() && eligible(#[trigger] s[j], want) implies
                total_order_key(s[j].confidence_bits) < total_order_key(s[i].confidence_bits) by {
                assert(j < n);
                assert(eligible(t[j], want));
            }
        }
    } else if !has_eligible(t, want) {
        assert(is_last_max(s, want, n)) by {
            assert forall|j: int| 0 <= j < s.len() && eligible(#[trigger] s[j], want) implies
                total_order_key(s[j].confidence_bits) <= total_order_key(s[n].confidence_bits) by {
                if j < n {
                    assert(eligible(t[j], want));
                }
            }
        }
    } else {
        lemma_last_max_exists(t, want);
        let i = choose|i: int| is_last_max(t, want, i);
        if total_order_key(x.confidence_bits) >= total_order_key(s[i].confidence_bits) {
            assert(is_last_max(s, want, n)) by {
                assert forall|j: int| 0 <= j < s.len() && eligible(#[trigger] s[j], want) implies
                    total_order_key(s[j].confidence_bits) <= total_order_key(
                        s[n].confidence_bits,
                    ) by {
                    if j < n {
                        assert(eligible(t[j], want));
                    }
                }
            }
        } else {
            assert(is_last_max(s, want, i)) by {
                assert forall|j: int| 0 <= j < s.len() && eligible(#[trigger] s[j], want) implies
                    total_order_key(s[j].confidence_bits) <= total_order_key(
                        s[i].confidence_bits,
                    ) by {
                    if j < n {
                        assert(eligible(t[j], want));
                    }
                }
                assert forall|j: int| i < j < s.len() && eligible(#[trigger] s[j], want) implies
                    total_order_key(s[j].confidence_bits) < total_order_key(s[i].confidence_bits) by {
                    if j < n {
                        assert(eligible(t[j], want));
                    }
                }
            }
        }
    }
}

proof fn lemma_eligible_transfers(s1: Seq<Signal>, s2: Seq<Signal>, want: Option<bool>)
    requires
        forall|x: Signal| s1.contains(x) ==> s2.contains(x),
        has_eligible(s1, want),
    ensures
        has_eligible(s2, want),
{
    let k = choose|k: int| 0 <= k < s1.len() && eligible(#[trigger] s1[k], want);
    assert(s1.contains(s1[k]));
    let j = choose|j: int| 0 <= j < s2.len() && s2[j] == s1[k];
    assert(eligible(s2[j], want));
}

proof fn lemma_best_bits_bounded(s1: Seq<Signal>, s2: Seq<Signal>, want: Option<bool>)
    requires
        forall|x: Signal| s1.contains(x) ==> s2.contains(x),
        has_eligible(s1, want),
        has_eligible(s2, want),
    ensures
        total_order_key(best(s1, want)->0.confidence_bits) <= total_order_key(
            best(s2, want)->0.confidence_bits,
        ),
{
    lemma_last_max_exists(s1, want);
    lemma_last_max_exists(s2, want);
    let i1 = choose|i: int| is_last_max(s1, want, i);
    let i2 = choose|i: int| is_last_max(s2, want, i);
    assert(s1.contains(s1[i1]));
    let j = choose|j: int| 0 <= j < s2.len() && s2[j] == s1[i1];
    assert(eligible(s2[j], want));
}

/// Among signals holding the same elements, the best eligible one has the same
/// confidence, and the same flag wherever the choice fixes it.
proof fn lemma_preferred_best_same(s1: Seq<Signal>, s2: Seq<Signal>, preferred: bool)
    requires
        forall|x: Signal| s1.contains(x) <==> s2.contains(x),
    ensures
        preferred_best(s1, preferred) is Some <==> preferred_best(s2, preferred) is Some,
        preferred_best(s1, preferred) is Some ==> preferred_best(s1, preferred)->0.flag
            == preferred_best(s2, preferred)->0.flag && preferred_best(s1, preferred)->0.confidence_bits
            == preferred_best(s2, preferred)->0.confidence_bits,
{
    let want = Some(preferred);
    if has_eligible(s1, want) {
        lemma_eligible_transfers(s1, s2, want);
    }
    if has_eligible(s2, want) {
        lemma_eligible_transfers(s2, s1, want);
    }
    if has_eligible(s1, None) {
        lemma_eligible_transfers(s1, s2, None);
    }
    if has_eligible(s2, None) {
        lemma_eligible_transfers(s2, s1, None);
    }
    let w = if has_eligible(s1, want) {
        want
    } else {
        None
    };
    if has_eligible(s1, w) {
        lemma_best_bits_bounded(s1, s2, w);
        lemma_best_bits_bounded(s2, s1, w);
        lemma_key_injective(best(s1, w)->0.confidence_bits, best(s2, w)->0.confidence_bits);
        lemma_last_max_exists(s1, w);
        lemma_last_max_exists(s2, w);
        let i1 = choose|i: int| is_last_max(s1, w, i);
        let i2 = choose|i: int| is_last_max(s2, w, i);
        if w is None {
            assert(!eligible(s1[i1], want));
            assert(!eligible(s2[i2], want));
        }
    }
}

/// The order of the elements of a JSON array reply does not matter: two arrays
/// with the same ad signals and the same worth signals, in any order, give the same
/// outcome, with the same `is_ad`, confidence, `is_worth` and worth confidence
/// (only the reasons can differ, between equally confident signals).
pub proof fn array_order_does_not_matter(p1: ParsedReply, p2: ParsedReply)
    requires
        p1 is Array,
        p2 is Array,
        p1->ads@.to_multiset() == p2->ads@.to_multiset(),
        p1->worths@.to_multiset() == p2->worths@.to_multiset(),
    ensures
        match (spec_interpret(p1), spec_interpret(p2)) {
            (Ok(r1), Ok(r2)) => r1.is_ad == r2.is_ad && r1.confidence_bits == r2.confidence_bits
                && r1.is_worth == r2.is_worth && r1.worth_confidence_bits
                == r2.worth_confidence_bits,
            (Err(e1), Err(e2)) => e1 == e2,
            _ => false,
        },
{
    broadcast use vstd::seq_lib::group_to_multiset_ensures;

    let a1 = p1->ads@;
    let a2 = p2->ads@;
    let w1 = p1->worths@;
    let w2 = p2->worths@;
    assert(a1.len() == a1.to_multiset().len());
    assert(a2.len() == a2.to_multiset().len());
    assert(w1.len() == w1.to_multiset().len());
    assert(w2.len() == w2.to_multiset().len());
    assert forall|x: Signal| a1.contains(x) <==> a2.contains(x) by {
        assert(a1.to_multiset().count(x) == a2.to_multiset().count(x));
    }
    assert forall|x: Signal| w1.contains(x) <==> w2.contains(x) by {
        assert(w1.to_multiset().count(x) == w2.to_multiset().count(x));
    }
    lemma_preferred_best_same(a1, a2, true);
    lemma_preferred_best_same(w1, w2, false);
}

/// A reply that is one ad object is classified by that object alone: its flag is
/// `is_ad`, its confidence and reason are the classification's, and no worth verdict
/// is given.
pub proof fn ad_object_classifies_by_itself(a: Signal)
    ensures
        spec_interpret(ParsedReply::Ad(a)) matches Ok(r) && r.is_ad == a.flag && r.confidence_bits
            == a.confidence_bits && r.reason == a.reason@ && r.is_worth is None
            && r.worth_confidence_bits is None && r.worth_reason is None,
{
}

/// A reply holding a lone worth signal is classified as no ad, with that signal's
/// flag as `is_worth`; its confidence and reason serve both as the general ones and
/// as the worth ones.
pub proof fn worth_object_keeps_its_verdict(w: Signal)
    ensures
        spec_interpret(ParsedReply::Object(Some(w))) matches Ok(r) && !r.is_ad && r.is_worth
            == Some(w.flag) && r.confidence_bits == w.confidence_bits && r.worth_confidence_bits
            == Some(w.confidence_bits) && r.reason == w.reason@ && r.worth_reason == Some(
            w.reason@,
        ),
{
}

/// In an array reply, the worth verdict comes from one of the worth signals: when
/// there are worth signals, `is_worth` and the worth confidence are those of one of
/// them, it says "not worth" whenever one of them does, and no worth signal that says
/// the same is more confident.
pub proof fn array_worth_verdict_comes_from_its_signals(ads: Vec<Signal>, worths: Vec<Signal>)
    requires
        worths@.len() > 0,
    ensures
        spec_interpret(ParsedReply::Array { ads, worths }) matches Ok(r) && exists|j: int|
            0 <= j < worths@.len() && r.is_worth == Some(worths@[j].flag)
                && r.worth_confidence_bits == Some(worths@[j].confidence_bits) && r.worth_reason
                == Some(worths@[j].reason@) && (forall|i: int|
                0 <= i < worths@.len() && worths@[i].flag == worths@[j].flag ==> total_order_key(
                    #[trigger] worths@[i].confidence_bits,
                ) <= total_order_key(worths@[j].confidence_bits)) && ((exists|i: int|
                0 <= i < worths@.len() && !(#[trigger] worths@[i].flag)) ==> !worths@[j].flag),
{
    let w = worths@;
    assert(eligible(w[0], None));
    let want = if has_eligible(w, Some(false)) {
        Some(false)
    } else {
        None
    };
    lemma_last_max_exists(w, want);
    let j = choose|i: int| is_last_max(w, want, i);
    if want is None {
        assert forall|i: int| 0 <= i < w.len() implies (#[trigger] w[i]).flag by {
            if !w[i].flag {
                assert(eligible(w[i], Some(false)));
                assert(has_eligible(w, Some(false)));
            }
        }
    }
    assert forall|i: int| 0 <= i < w.len() && w[i].flag == w[j].flag implies total_order_key(
        #[trigger] w[i].confidence_bits,
    ) <= total_order_key(w[j].confidence_bits) by {
        assert(eligible(w[i], want));
    }
}

/// In an array reply with ad signals, the classification says "ad" exactly when one
/// of the ad signals does, and its confidence is that of the most confident ad
/// signal giving the same verdict.
pub proof fn array_ad_verdict_comes_from_its_signals(ads: Vec<Signal>, worths: Vec<Signal>)
    requires
        ads@.len() > 0,
    ensures
        spec_interpret(ParsedReply::Array { ads, worths }) matches Ok(r) && (r.is_ad <==> exists|
            i: int,
        | 0 <= i < ads@.len() && (#[trigger] ads@[i]).flag) && exists|j: int|
            0 <= j < ads@.len() && ads@[j].flag == r.is_ad && r.confidence_bits
                == ads@[j].confidence_bits && r.reason == ads@[j].reason@ && forall|i: int|
                0 <= i < ads@.len() && (#[trigger] ads@[i]).flag == r.is_ad ==> total_order_key(
                    ads@[i].confidence_bits,
                ) <= total_order_key(r.confidence_bits),
{
    let a = ads@;
    assert(eligible(a[0], None));
    let want = if has_eligible(a, Some(true)) {
        Some(true)
    } else {
        None
    };
    lemma_last_max_exists(a, want);
    let j = choose|i: int| is_last_max(a, want, i);
    if want is None {
        assert forall|i: int| 0 <= i < a.len() implies !(#[trigger] a[i]).flag by {
            if a[i].flag {
                assert(eligible(a[i], Some(true)));
                assert(has_eligible(a, Some(true)));
            }
        }
    } else {
        let k = choose|k: int| 0 <= k < a.len() && eligible(#[trigger] a[k], Some(true));
        assert(a[k].flag);
    }
    assert forall|i: int| 0 <= i < a.len() && (#[trigger] a[i]).flag == a[j].flag implies total_order_key(
        a[i].confidence_bits,
    ) <= total_order_key(a[j].confidence_bits) by {
        assert(eligible(a[i], want));
    }
}

/// A reply is refused exactly when it carries no signal: a reply that is not JSON as
/// malformed, an object that is no signal or a bare JSON value as of unexpected
/// shape, and an array without a single signal as holding none.
pub proof fn reply_refused_exactly_without_signals(p: ParsedReply)
    ensures
        (spec_interpret(p) is Err) <==> (p is Malformed || p == ParsedReply::Object(None)
            || p is Scalar || (p matches ParsedReply::Array { ads, worths } && ads@.len() == 0
            && worths@.len() == 0)),
        p is Malformed ==> spec_interpret(p) == Err::<ClassifierResponseView, ReplyError>(
            ReplyError::Malformed,
        ),
        (p == ParsedReply::Object(None) || p is Scalar) ==> spec_interpret(p) == Err::<
            ClassifierResponseView,
            ReplyError,
        >(ReplyError::UnexpectedShape),
        (p matches ParsedReply::Array { ads, worths } && ads@.len() == 0 && worths@.len() == 0)
            ==> spec_interpret(p) == Err::<ClassifierResponseView, ReplyError>(
            ReplyError::NoSignals,
        ),
{
}

/// An array without ad signals is no ad, and its general confidence and reason are
/// those of its worth verdict; an array without worth signals gives no worth verdict.
pub proof fn array_sides_stand_in_for_each_other(ads: Vec<Signal>, worths: Vec<Signal>)
    ensures
        ads@.len() == 0 && worths@.len() > 0 ==> (spec_interpret(
            ParsedReply::Array { ads, worths },
        ) matches Ok(r) && !r.is_ad && r.worth_confidence_bits == Some(r.confidence_bits)
            && r.worth_reason == Some(r.reason)),
        worths@.len() == 0 && ads@.len() > 0 ==> (spec_interpret(
            ParsedReply::Array { ads, worths },
        ) matches Ok(r) && r.is_worth is None && r.worth_confidence_bits is None
            && r.worth_reason is None),
{
    if worths@.len() > 0 {
        assert(eligible(worths@[0], None));
    }
    if ads@.len() > 0 {
        assert(eligible(ads@[0], None));
    }
}

/// The chat-completions endpoint under an API base URL.
pub open spec fn spec_completions_url(api_base: Seq<char>) -> Seq<char> {
    trim_end_slashes(api_base) + "/chat/completions"@
}

/// The chat-completions endpoint under an API base URL: the base without trailing
/// slashes, then `/chat/completions`.
pub fn completions_url(api_base: &str) -> (r: String)
    ensures
        r@ == spec_completions_url(api_base@),
{
    let v = chars_of(api_base);
    let mut end = v.len();
    assert(v@.subrange(0, end as int) == v@);
    while end > 0 && v[end - 1] == '/'
        invariant
            v@ == api_base@,
            end <= v.len(),
            trim_end_slashes(api_base@) == trim_end_slashes(v@.subrange(0, end as int)),
        decreases end,
    {
        assert(v@.subrange(0, end - 1) == v@.subrange(0, end as int).drop_last());
        end -= 1;
    }
    let mut out = crate::text::slice_part(v.as_slice(), 0, end);
    let tail = chars_of("/chat/completions");
    append_chars(&mut out, tail.as_slice());
    string_of(out.as_slice())
}

/// Whether requests ask for a JSON-object reply: every endpoint but Anthropic's does.
pub fn use_json_object_format(api_base: &str) -> (r: bool)
    ensures
        r == !contains(api_base@, "anthropic.com"@),
{
    let v = chars_of(api_base);
    let p = chars_of("anthropic.com");
    !contains_chars(v.as_slice(), p.as_slice())
}

/// Why a chat-completions reply is an API error, which decides the body it reports.
#[derive(Debug, PartialEq, Eq, Structural, Clone, Copy)]
pub enum ApiFailure {
    /// The reply holds an `error` member; that member is the body.
    ErrorMember,
    /// The status is not a success; the whole reply is the body.
    Status,
}

/// The message content to classify, from a chat-completions reply that came with
/// `status`: an API error when the reply has an `error` member, or else when the
/// status is not a success; otherwise the content (`{}` when the reply has none as
/// a string) with its code fences taken off.
pub fn reply_content(status: u16, has_error_member: bool, content: Option<&str>) -> (r: Result<
    String,
    ApiFailure,
>)
    ensures
        has_error_member ==> r == Err::<String, ApiFailure>(ApiFailure::ErrorMember),
        !has_error_member && !crate::spec_is_success(status) ==> r == Err::<String, ApiFailure>(
            ApiFailure::Status,
        ),
        !has_error_member && crate::spec_is_success(status) ==> (r matches Ok(text) && text@
            == spec_strip_code_fences(
            match content {
                Some(c) => c@,
                None => "{}"@,
            },
        )),
{
    if has_error_member {
        return Err(ApiFailure::ErrorMember);
    }
    if !crate::is_success(status) {
        return Err(ApiFailure::Status);
    }
    match content {
        Some(c) => Ok(strip_code_fences(c)),
        None => Ok(strip_code_fences("{}")),
    }
}

} // verus!
