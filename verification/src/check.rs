//! Rules: what a rule is, the wrapper that remaps a rule's severity, the
//! composer that merges the rules of one field, and the built-in kinds of rule.
use itertools::Itertools;
use crate::decimal::{decimal_text, lemma_decimal_round_trip};
use crate::notice::{Notice, NoticeView};
use crate::pattern::{regex_matches, Pattern};
use crate::value::{Value, ValueKind, ValueView};
use vstd::prelude::*;

verus! {

/// Why a rule could not evaluate a value at all.
#[derive(Debug, Clone, Copy, PartialEq, Eq, Structural)]
pub enum CheckError {
    /// The rule asks for a tag that the value does not carry.
    InvalidKind,
}

impl CheckError {
    /// The error in words.
    pub fn to_string(&self) -> (s: String)
        ensures
            s@ == "Invalid kind"@,
    {
        "Invalid kind".to_owned()
    }
}

/// The result of an evaluation as contracts see it.
pub open spec fn outcome_view(r: Result<Notice, CheckError>) -> Result<NoticeView, CheckError> {
    match r {
        Ok(notice) => Ok(notice@),
        Err(e) => Err(e),
    }
}

/// A validation rule. What it answers depends on the rule and on the value
/// alone: `outcome` is that answer, `signature` the tags that the rule is
/// willing to evaluate, in the order in which it lists them. The two exist
/// for contracts and are never run.
pub trait Checker {
    /// What evaluating `value` gives.
    spec fn outcome(&self, value: ValueView) -> Result<NoticeView, CheckError>;

    /// The tags that the rule accepts.
    spec fn signature(&self) -> Seq<ValueKind>;

    /// Evaluates `value`.
    fn check(&self, value: &Value) -> (r: Result<Notice, CheckError>)
        ensures
            outcome_view(r) == self.outcome(value@),
    ;

    /// The tags that the rule accepts.
    fn expecting(&self) -> (r: Vec<ValueKind>)
        ensures
            r@ == self.signature(),
    ;
}

/// `Clear` where the condition holds, and `Attention` with a copy of the
/// message where it does not.
pub fn clear_if(holds: bool, msg: &String) -> (r: Notice)
    ensures
        r@ == if holds {
            NoticeView::Clear
        } else {
            NoticeView::Attention(msg@)
        },
{
    if holds {
        Notice::Clear
    } else {
        Notice::Attention(msg.clone())
    }
}

/// An outcome with `Attention` promoted to `Error`; the message stays.
pub open spec fn escalate(notice: NoticeView) -> NoticeView {
    match notice {
        NoticeView::Attention(msg) => NoticeView::Error(msg),
        other => other,
    }
}

/// A rule with the severity at which its concern counts: as `Attention` it
/// answers what the rule answers, as `Error` it promotes the rule's
/// `Attention` to `Error`.
pub enum CheckerMode<T> {
    Attention(T),
    Error(T),
}

impl<T: Checker> Checker for CheckerMode<T> {
    open spec fn outcome(&self, value: ValueView) -> Result<NoticeView, CheckError> {
        match self {
            CheckerMode::Attention(c) => c.outcome(value),
            CheckerMode::Error(c) => match c.outcome(value) {
                Ok(notice) => Ok(escalate(notice)),
                Err(e) => Err(e),
            },
        }
    }

    open spec fn signature(&self) -> Seq<ValueKind> {
        match self {
            CheckerMode::Attention(c) => c.signature(),
            CheckerMode::Error(c) => c.signature(),
        }
    }

    fn check(&self, value: &Value) -> (r: Result<Notice, CheckError>) {
        Ok(
            match self {
                CheckerMode::Attention(c) => match c.check(value)? {
                    Notice::Clear => Notice::Clear,
                    Notice::Attention(msg) => Notice::Attention(msg),
                    Notice::Error(msg) => Notice::Error(msg),
                },
                CheckerMode::Error(c) => match c.check(value)? {
                    Notice::Clear => Notice::Clear,
                    Notice::Attention(msg) => Notice::Error(msg),
                    Notice::Error(msg) => Notice::Error(msg),
                },
            },
        )
    }

    fn expecting(&self) -> (r: Vec<ValueKind>) {
        match self {
            CheckerMode::Attention(c) => c.expecting(),
            CheckerMode::Error(c) => c.expecting(),
        }
    }
}

/// In `Error` mode a rule's `Attention` becomes an `Error` with the same
/// message, while `Clear`, `Error` and a failure pass through; in `Attention`
/// mode every answer passes through. The signature passes through in both.
pub proof fn lemma_mode_remaps_severity<T: Checker>(rule: T, value: ValueView)
    ensures
        CheckerMode::Attention(rule).outcome(value) == rule.outcome(value),
        CheckerMode::Error(rule).outcome(value) == match rule.outcome(value) {
            Ok(NoticeView::Attention(msg)) => Ok(NoticeView::Error(msg)),
            other => other,
        },
        CheckerMode::Attention(rule).signature() == rule.signature(),
        CheckerMode::Error(rule).signature() == rule.signature(),
{
}

/// Every rule can be put in either mode.
pub trait SwitchMode: Sized {
    /// The rule at the severity `Attention`.
    fn into_attention(self) -> (r: CheckerMode<Self>)
        ensures
            r == CheckerMode::Attention(self),
    ;

    /// The rule at the severity `Error`.
    fn into_error(self) -> (r: CheckerMode<Self>)
        ensures
            r == CheckerMode::Error(self),
    ;
}

impl<T: Checker> SwitchMode for T {
    fn into_attention(self) -> (r: CheckerMode<Self>) {
        CheckerMode::Attention(self)
    }

    fn into_error(self) -> (r: CheckerMode<Self>) {
        CheckerMode::Error(self)
    }
}

/// Why rules could not be merged into one.
#[derive(Debug, Clone, Copy, PartialEq, Eq, Structural)]
pub enum FlattenError {
    /// The rules do not share one signature, or there is no rule at all.
    InvalidKind,
}

impl FlattenError {
    /// The error in words.
    pub fn to_string(&self) -> (s: String)
        ensures
            s@ == "Invalid kind"@,
    {
        "Invalid kind".to_owned()
    }
}

/// Every rule of the sequence has the signature of the first.
pub open spec fn uniform<T: Checker>(rules: Seq<T>) -> bool {
    forall|i: int| 0 <= i < rules.len() ==> (#[trigger] rules[i]).signature() == rules[0].signature()
}

/// The more severe of two outcomes; of two that are level, the later one.
pub open spec fn worse(earlier: NoticeView, later: NoticeView) -> NoticeView {
    if later.severity() >= earlier.severity() {
        later
    } else {
        earlier
    }
}

/// What the answers of several rules, taken in order, come to: the first
/// failure if there is one; else the most severe outcome, and of several that
/// are level at the top the last; `Clear` where there is no answer.
pub open spec fn resolve(outcomes: Seq<Result<NoticeView, CheckError>>) -> Result<
    NoticeView,
    CheckError,
>
    decreases outcomes.len(),
{
    if outcomes.len() == 0 {
        Ok(NoticeView::Clear)
    } else {
        match resolve(outcomes.drop_last()) {
            Err(e) => Err(e),
            Ok(so_far) => match outcomes.last() {
                Err(e) => Err(e),
                Ok(notice) => Ok(worse(so_far, notice)),
            },
        }
    }
}

/// The answers of the rules to one value, in the order of the rules.
pub open spec fn outcomes_of<T: Checker>(rules: Seq<T>, value: ValueView) -> Seq<
    Result<NoticeView, CheckError>,
> {
    Seq::new(rules.len(), |i: int| rules[i].outcome(value))
}

/// Once the answers so far have come to a failure, further answers change
/// nothing.
pub proof fn lemma_failure_is_final(outcomes: Seq<Result<NoticeView, CheckError>>, k: int)
    requires
        0 <= k <= outcomes.len(),
        resolve(outcomes.take(k)) is Err,
    ensures
        resolve(outcomes) == resolve(outcomes.take(k)),
    decreases outcomes.len() - k,
{
    if k == outcomes.len() {
        assert(outcomes.take(k) =~= outcomes);
    } else {
        assert(outcomes.drop_last().take(k) =~= outcomes.take(k));
        lemma_failure_is_final(outcomes.drop_last(), k);
    }
}

/// Where a rule fails and none before it does, the rules come to that
/// failure, whatever the rules after it answer.
pub proof fn lemma_first_failure_wins(outcomes: Seq<Result<NoticeView, CheckError>>, k: int)
    requires
        0 <= k < outcomes.len(),
        outcomes[k] is Err,
        forall|i: int| 0 <= i < k ==> (#[trigger] outcomes[i]) is Ok,
    ensures
        resolve(outcomes) == outcomes[k],
{
    let front = outcomes.take(k);
    lemma_resolve_takes_the_worst(front);
    let upto = outcomes.take(k + 1);
    assert(upto.drop_last() =~= front);
    assert(upto.last() == outcomes[k]);
    lemma_failure_is_final(outcomes, k + 1);
}

/// Where no rule fails, the rules come to an outcome whose severity is the
/// maximum over all their outcomes: none is more severe, and where there is a
/// rule at all the outcome is that of one of them, the last of those at the
/// top. Where every rule answers `Clear`, so do they all together.
pub proof fn lemma_resolve_takes_the_worst(outcomes: Seq<Result<NoticeView, CheckError>>)
    requires
        forall|i: int| 0 <= i < outcomes.len() ==> (#[trigger] outcomes[i]) is Ok,
    ensures
        resolve(outcomes) is Ok,
        forall|i: int|
            0 <= i < outcomes.len() ==> (#[trigger] outcomes[i])->Ok_0.severity() <= resolve(
                outcomes,
            )->Ok_0.severity(),
        outcomes.len() == 0 ==> resolve(outcomes) == Ok::<NoticeView, CheckError>(
            NoticeView::Clear,
        ),
        outcomes.len() > 0 ==> exists|k: int|
            {
                &&& 0 <= k < outcomes.len()
                &&& #[trigger] outcomes[k] == resolve(outcomes)
                &&& forall|i: int|
                    k < i < outcomes.len() ==> (#[trigger] outcomes[i])->Ok_0.severity()
                        < resolve(outcomes)->Ok_0.severity()
            },
        (forall|i: int|
            0 <= i < outcomes.len() ==> #[trigger] outcomes[i] == Ok::<NoticeView, CheckError>(
                NoticeView::Clear,
            )) ==> resolve(outcomes) == Ok::<NoticeView, CheckError>(NoticeView::Clear),
    decreases outcomes.len(),
{
    if outcomes.len() > 0 {
        let front = outcomes.drop_last();
        let last = outcomes.len() - 1;
        assert forall|i: int| 0 <= i < front.len() implies (#[trigger] front[i]) is Ok by {
            assert(front[i] == outcomes[i]);
        }
        lemma_resolve_takes_the_worst(front);
        let so_far = resolve(front)->Ok_0;
        let total = resolve(outcomes);
        assert(outcomes[last] is Ok);
        assert(total == Ok::<NoticeView, CheckError>(worse(so_far, outcomes[last]->Ok_0)));
        assert forall|i: int| 0 <= i < outcomes.len() implies (#[trigger] outcomes[i])->Ok_0.severity()
            <= total->Ok_0.severity() by {
            if i < last {
                assert(front[i] == outcomes[i]);
            }
        }
        if outcomes[last]->Ok_0.severity() >= so_far.severity() {
            assert(outcomes[last] == total);
        } else {
            let k = choose|k: int|
                {
                    &&& 0 <= k < front.len()
                    &&& #[trigger] front[k] == resolve(front)
                    &&& forall|i: int|
                        k < i < front.len() ==> (#[trigger] front[i])->Ok_0.severity() < resolve(
                            front,
                        )->Ok_0.severity()
                };
            assert(outcomes[k] == front[k]);
            assert forall|i: int| k < i < outcomes.len() implies (#[trigger] outcomes[i])->Ok_0.severity()
                < total->Ok_0.severity() by {
                if i < last {
                    assert(front[i] == outcomes[i]);
                }
            }
            assert(outcomes[k] == total);
        }
        if forall|i: int|
            0 <= i < outcomes.len() ==> #[trigger] outcomes[i] == Ok::<NoticeView, CheckError>(
                NoticeView::Clear,
            ) {
            assert(outcomes[last] == Ok::<NoticeView, CheckError>(NoticeView::Clear));
            assert forall|i: int| 0 <= i < front.len() implies #[trigger] front[i] == Ok::<
                NoticeView,
                CheckError,
            >(NoticeView::Clear) by {
                assert(front[i] == outcomes[i]);
            }
        }
    }
}

/// Whether rules are uniform does not depend on their order: they are where
/// any two of them have one signature. So rules of which two differ in their
/// signature are not uniform, wherever the two stand and however many rules
/// there are.
pub proof fn lemma_uniform_is_pairwise<T: Checker>(rules: Seq<T>)
    ensures
        uniform(rules) <==> forall|i: int, j: int|
            0 <= i < rules.len() && 0 <= j < rules.len() ==> (#[trigger] rules[i]).signature() == (
            #[trigger] rules[j]).signature(),
{
    if uniform(rules) {
        assert forall|i: int, j: int| 0 <= i < rules.len() && 0 <= j < rules.len() implies (
        #[trigger] rules[i]).signature() == (#[trigger] rules[j]).signature() by {
            assert(rules[i].signature() == rules[0].signature());
            assert(rules[j].signature() == rules[0].signature());
        }
    }
}

/// Calls `itertools::Itertools::all_equal` on the signatures in order.
/// Trusted: it answers whether every signature equals the first, element by
/// element; for no signature at all it answers `true`.
#[verifier::external_body]
fn all_equal(signatures: &Vec<Vec<ValueKind>>) -> (b: bool)
    ensures
        b == (forall|i: int|
            0 <= i < signatures.len() ==> (#[trigger] signatures[i])@ == signatures[0]@),
{
    signatures.iter().all_equal()
}

/// Several rules for one field, merged into one: at least one rule, all of
/// one signature, in the order in which they were given.
pub struct Flatten<T: Checker>(Vec<T>);

impl<T: Checker> Flatten<T> {
    /// The rules, in order.
    pub closed spec fn members(&self) -> Seq<T> {
        self.0@
    }

    /// There is a rule, and all rules share one signature.
    pub open spec fn well_formed(&self) -> bool {
        self.members().len() > 0 && uniform(self.members())
    }

    #[verifier::type_invariant]
    spec fn inv(self) -> bool {
        self.well_formed()
    }

    /// Merges the rules into one. Fails where there is no rule, or where the
    /// signatures of two rules differ.
    pub fn new(rules: Vec<T>) -> (r: Result<Flatten<T>, FlattenError>)
        ensures
            r is Ok <==> rules.len() > 0 && uniform(rules@),
            r matches Ok(flat) ==> flat.members() == rules@ && flat.well_formed(),
    {
        let mut signatures: Vec<Vec<ValueKind>> = Vec::new();
        let mut i: usize = 0;
        while i < rules.len()
            invariant
                i <= rules.len(),
                signatures.len() == i,
                forall|j: int| 0 <= j < i ==> (#[trigger] signatures[j])@ == rules[j].signature(),
            decreases rules.len() - i,
        {
            signatures.push(rules[i].expecting());
            i = i + 1;
        }
        if rules.len() == 0 || !all_equal(&signatures) {
            proof {
                if rules.len() > 0 && uniform(rules@) {
                    assert forall|j: int| 0 <= j < signatures.len() implies (
                    #[trigger] signatures[j])@ == signatures[0]@ by {
                        assert(rules@[j].signature() == rules@[0].signature());
                    }
                }
            }
            Err(FlattenError::InvalidKind)
        } else {
            proof {
                assert forall|j: int| 0 <= j < rules.len() implies (#[trigger] rules@[j]).signature()
                    == rules@[0].signature() by {
                    assert(signatures[j]@ == signatures[0]@);
                }
            }
            Ok(Flatten(rules))
        }
    }
}

impl<T: Checker> Checker for Flatten<T> {
    open spec fn outcome(&self, value: ValueView) -> Result<NoticeView, CheckError> {
        resolve(outcomes_of(self.members(), value))
    }

    open spec fn signature(&self) -> Seq<ValueKind> {
        self.members()[0].signature()
    }

    /// Asks every rule in order. The first failure ends the evaluation;
    /// without one the most severe outcome is the answer.
    fn check(&self, value: &Value) -> (r: Result<Notice, CheckError>) {
        let ghost outcomes = outcomes_of(self.members(), value@);
        let mut worst = Notice::Clear;
        let mut i: usize = 0;
        while i < self.0.len()
            invariant
                i <= self.0.len(),
                outcomes == outcomes_of(self.members(), value@),
                self.members() == self.0@,
                resolve(outcomes.take(i as int)) == Ok::<NoticeView, CheckError>(worst@),
            decreases self.0.len() - i,
        {
            proof {
                let upto = outcomes.take(i + 1);
                assert(upto.drop_last() =~= outcomes.take(i as int));
                assert(upto.last() == self.0@[i as int].outcome(value@));
            }
            match self.0[i].check(value) {
                Err(e) => {
                    proof {
                        lemma_failure_is_final(outcomes, i + 1);
                    }
                    return Err(e);
                },
                Ok(notice) => {
                    if notice.severity() >= worst.severity() {
                        worst = notice;
                    }
                },
            }
            i = i + 1;
        }
        assert(outcomes.take(i as int) =~= outcomes);
        Ok(worst)
    }

    fn expecting(&self) -> (r: Vec<ValueKind>) {
        proof {
            use_type_invariant(self);
        }
        self.0[0].expecting()
    }
}

/// What can be merged into one rule.
pub trait IntoFlat<T: Checker>: Sized {
    /// The rules to merge, in order.
    spec fn rules(&self) -> Seq<T>;

    /// Merges the rules into one: see [`Flatten::new`].
    fn into_flat(self) -> (r: Result<Flatten<T>, FlattenError>)
        ensures
            r is Ok <==> self.rules().len() > 0 && uniform(self.rules()),
            r matches Ok(flat) ==> flat.members() == self.rules() && flat.well_formed(),
    ;
}

impl<T: Checker> IntoFlat<T> for Vec<T> {
    open spec fn rules(&self) -> Seq<T> {
        self@
    }

    fn into_flat(self) -> (r: Result<Flatten<T>, FlattenError>) {
        Flatten::new(self)
    }
}

/// The built-in kinds of rule.
pub enum Checkers {
    /// Accepts every value.
    Any,
    /// The expected text, and the message for any other.
    Exact(String, String),
    /// A pattern, and the message for a text that it does not match.
    Regex(Pattern, String),
    /// The lower and the upper bound, both inclusive, and the message for a
    /// number outside them.
    Between(i64, i64, String),
    /// Any other rule.
    Custom(Box<dyn Checker>),
}

impl Checker for Checkers {
    open spec fn outcome(&self, value: ValueView) -> Result<NoticeView, CheckError> {
        match self {
            Checkers::Any => Ok(NoticeView::Clear),
            Checkers::Exact(expected, msg) => Ok(
                if value.text == expected@ {
                    NoticeView::Clear
                } else {
                    NoticeView::Attention(msg@)
                },
            ),
            Checkers::Regex(pattern, msg) => Ok(
                if regex_matches(pattern@, value.text) {
                    NoticeView::Clear
                } else {
                    NoticeView::Attention(msg@)
                },
            ),
            Checkers::Between(from, to, msg) => if value.kind == ValueKind::Number {
                Ok(
                    if value.number() matches Some(n) && *from <= n <= *to {
                        NoticeView::Clear
                    } else {
                        NoticeView::Attention(msg@)
                    },
                )
            } else {
                Err(CheckError::InvalidKind)
            },
            Checkers::Custom(inner) => inner.outcome(value),
        }
    }

    open spec fn signature(&self) -> Seq<ValueKind> {
        match self {
            Checkers::Any => seq![ValueKind::Number, ValueKind::Literal],
            Checkers::Exact(_, _) => seq![ValueKind::Number, ValueKind::Literal],
            Checkers::Regex(_, _) => seq![ValueKind::Number, ValueKind::Literal],
            Checkers::Between(_, _, _) => seq![ValueKind::Number],
            Checkers::Custom(inner) => inner.signature(),
        }
    }

    fn check(&self, value: &Value) -> (r: Result<Notice, CheckError>) {
        match self {
            Checkers::Any => Ok(Notice::Clear),
            Checkers::Exact(expected, msg) => {
                let text = value.to_string();
                Ok(clear_if(*expected == text, msg))
            },
            Checkers::Regex(pattern, msg) => {
                let text = value.to_string();
                Ok(clear_if(pattern.matches(text.as_str()), msg))
            },
            Checkers::Between(from, to, msg) => {
                if value.is_kind_of(ValueKind::Number) {
                    let within = match value.to_integer() {
                        Some(n) => *from <= n && n <= *to,
                        None => false,
                    };
                    Ok(clear_if(within, msg))
                } else {
                    Err(CheckError::InvalidKind)
                }
            },
            Checkers::Custom(inner) => inner.check(value),
        }
    }

    fn expecting(&self) -> (r: Vec<ValueKind>) {
        match self {
            Checkers::Any => vec![ValueKind::Number, ValueKind::Literal],
            Checkers::Exact(_, _) => vec![ValueKind::Number, ValueKind::Literal],
            Checkers::Regex(_, _) => vec![ValueKind::Number, ValueKind::Literal],
            Checkers::Between(_, _, _) => vec![ValueKind::Number],
            Checkers::Custom(inner) => inner.expecting(),
        }
    }
}

/// The numeric range asks for a number and includes both of its bounds: on a
/// value tagged as a literal it fails, whatever the text; on the number `n` it
/// answers `Clear` exactly where `from <= n <= to`, and `Attention` with its
/// message elsewhere.
pub proof fn lemma_between_is_inclusive(from: i64, to: i64, msg: String, n: int, text: Seq<char>)
    ensures
        Checkers::Between(from, to, msg).outcome((ValueView { text, kind: ValueKind::Literal }))
            == Err::<NoticeView, CheckError>(CheckError::InvalidKind),
        Checkers::Between(from, to, msg).outcome(
            (ValueView { text: decimal_text(n), kind: ValueKind::Number }),
        ) == Ok::<NoticeView, CheckError>(
            if from <= n <= to {
                NoticeView::Clear
            } else {
                NoticeView::Attention(msg@)
            },
        ),
        from <= to ==> Checkers::Between(from, to, msg).outcome(
            (ValueView { text: decimal_text(from as int), kind: ValueKind::Number }),
        ) == Ok::<NoticeView, CheckError>(NoticeView::Clear),
        from <= to ==> Checkers::Between(from, to, msg).outcome(
            (ValueView { text: decimal_text(to as int), kind: ValueKind::Number }),
        ) == Ok::<NoticeView, CheckError>(NoticeView::Clear),
{
    lemma_decimal_round_trip(n);
    lemma_decimal_round_trip(from as int);
    lemma_decimal_round_trip(to as int);
}

} // verus!
