//! The outcome of an evaluation: a three-state severity with its message.
use core::cmp::Ordering;
use vstd::prelude::*;
use vstd::std_specs::cmp::{PartialEqSpecImpl, PartialOrdSpecImpl};

verus! {

/// The outcome of evaluating a value: acceptable, mildly concerning, or
/// unacceptable. The message is payload: it plays no part in the order.
#[derive(Debug)]
pub enum Notice {
    Clear,
    Attention(String),
    Error(String),
}

/// What a [`Notice`] is to a contract.
pub enum NoticeView {
    Clear,
    Attention(Seq<char>),
    Error(Seq<char>),
}

impl NoticeView {
    /// The rank of the outcome: 0 for `Clear`, 1 for `Attention`, 2 for
    /// `Error`.
    pub open spec fn severity(self) -> nat {
        match self {
            NoticeView::Clear => 0,
            NoticeView::Attention(_) => 1,
            NoticeView::Error(_) => 2,
        }
    }

    /// How `self` stands to `other` in severity.
    pub open spec fn severity_order(self, other: NoticeView) -> Ordering {
        if self.severity() < other.severity() {
            Ordering::Less
        } else if self.severity() == other.severity() {
            Ordering::Equal
        } else {
            Ordering::Greater
        }
    }
}

impl View for Notice {
    type V = NoticeView;

    open spec fn view(&self) -> NoticeView {
        match self {
            Notice::Clear => NoticeView::Clear,
            Notice::Attention(msg) => NoticeView::Attention(msg@),
            Notice::Error(msg) => NoticeView::Error(msg@),
        }
    }
}

impl Notice {
    /// The rank of the outcome: 0 for `Clear`, 1 for `Attention`, 2 for
    /// `Error`.
    pub fn severity(&self) -> (s: u8)
        ensures
            s == self@.severity(),
    {
        match self {
            Notice::Clear => 0,
            Notice::Attention(_) => 1,
            Notice::Error(_) => 2,
        }
    }
}

impl PartialEqSpecImpl for Notice {
    open spec fn obeys_eq_spec() -> bool {
        true
    }

    open spec fn eq_spec(&self, other: &Notice) -> bool {
        self@ == other@
    }
}

impl PartialEq for Notice {
    /// Two outcomes are equal where they are of one kind and carry one
    /// message: equality looks at the message, the order does not.
    fn eq(&self, other: &Notice) -> (r: bool) {
        match (self, other) {
            (Notice::Clear, Notice::Clear) => true,
            (Notice::Attention(a), Notice::Attention(b)) => *a == *b,
            (Notice::Error(a), Notice::Error(b)) => *a == *b,
            (_, _) => false,
        }
    }
}

impl Eq for Notice {}

impl PartialOrdSpecImpl for Notice {
    open spec fn obeys_partial_cmp_spec() -> bool {
        true
    }

    open spec fn partial_cmp_spec(&self, other: &Notice) -> Option<Ordering> {
        Some(self@.severity_order(other@))
    }
}

impl PartialOrd for Notice {
    /// Compares by severity alone: `Clear < Attention < Error`, whatever the
    /// messages.
    fn partial_cmp(&self, other: &Notice) -> (r: Option<Ordering>) {
        Some(
            match (self, other) {
                (Notice::Clear, Notice::Clear) => Ordering::Equal,
                (Notice::Clear, _) => Ordering::Less,
                (_, Notice::Clear) => Ordering::Greater,
                (Notice::Error(_), Notice::Attention(_)) => Ordering::Greater,
                (Notice::Attention(_), Notice::Error(_)) => Ordering::Less,
                (_, _) => Ordering::Equal,
            },
        )
    }
}

impl vstd::std_specs::convert::FromSpecImpl<Notice> for Result<Notice, String> {
    open spec fn obeys_from_spec() -> bool {
        true
    }

    open spec fn from_spec(v: Notice) -> Result<Notice, String> {
        match v {
            Notice::Clear => Ok(Notice::Clear),
            Notice::Attention(msg) => Ok(Notice::Attention(msg)),
            Notice::Error(msg) => Err(msg),
        }
    }
}

impl From<Notice> for Result<Notice, String> {
    /// Parts the outcomes that let a value pass from the one that does not:
    /// `Clear` and `Attention` are kept, the message of an `Error` becomes the
    /// failure.
    fn from(value: Notice) -> (r: Result<Notice, String>) {
        match value {
            Notice::Clear => Ok(Notice::Clear),
            Notice::Attention(msg) => Ok(Notice::Attention(msg)),
            Notice::Error(msg) => Err(msg),
        }
    }
}

/// The severity order is reflexive.
pub proof fn lemma_severity_order_reflexive(a: NoticeView)
    ensures
        a.severity_order(a) == Ordering::Equal,
{
}

/// The severity order is total: of two outcomes one is below, level with, or
/// above the other, and the other way round it is the opposite.
pub proof fn lemma_severity_order_total(a: NoticeView, b: NoticeView)
    ensures
        a.severity_order(b) == Ordering::Less <==> b.severity_order(a) == Ordering::Greater,
        a.severity_order(b) == Ordering::Equal <==> b.severity_order(a) == Ordering::Equal,
        a.severity_order(b) == Ordering::Greater <==> b.severity_order(a) == Ordering::Less,
{
}

/// The severity order is transitive.
pub proof fn lemma_severity_order_transitive(a: NoticeView, b: NoticeView, c: NoticeView)
    requires
        a.severity_order(b) != Ordering::Greater,
        b.severity_order(c) != Ordering::Greater,
    ensures
        a.severity_order(c) != Ordering::Greater,
        a.severity_order(b) == Ordering::Less || b.severity_order(c) == Ordering::Less
            ==> a.severity_order(c) == Ordering::Less,
{
}

/// `Clear` is the minimum of the severity order, and the only one.
pub proof fn lemma_clear_is_unique_minimum(a: NoticeView)
    ensures
        NoticeView::Clear.severity_order(a) != Ordering::Greater,
        a.severity_order(NoticeView::Clear) != Ordering::Greater <==> a == NoticeView::Clear,
{
}

/// Two `Attention` outcomes are level whatever their messages, and so are two
/// `Error` outcomes.
pub proof fn lemma_message_is_payload(m1: Seq<char>, m2: Seq<char>)
    ensures
        NoticeView::Attention(m1).severity_order(NoticeView::Attention(m2)) == Ordering::Equal,
        NoticeView::Error(m1).severity_order(NoticeView::Error(m2)) == Ordering::Equal,
        NoticeView::Attention(m1).severity_order(NoticeView::Error(m2)) == Ordering::Less,
{
}

} // verus!
