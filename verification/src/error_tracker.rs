//! Accumulation of configuration errors during one translation pass.
//!
//! Errors collect while the annotations are read; `check` is called once
//! and either confirms success or hands back every recorded error combined.

use vstd::prelude::*;

verus! {

/// One configuration error, attributed to the offending token's position.
#[derive(Debug)]
pub struct TsError {
    /// The opaque source position marker of the offending token.
    pub span: u64,
    /// The error text.
    pub message: String,
}

/// Mathematical model of one configuration error.
pub struct ErrM {
    pub span: u64,
    pub message: Seq<char>,
}

impl View for TsError {
    type V = ErrM;

    open spec fn view(&self) -> ErrM {
        ErrM { span: self.span, message: self.message@ }
    }
}

/// The models of a list of errors, element by element.
pub open spec fn errors_view(s: Seq<TsError>) -> Seq<ErrM>
    decreases s,
{
    if s.len() == 0 {
        Seq::empty()
    } else {
        errors_view(s.drop_last()).push(s.last()@)
    }
}

pub proof fn lemma_errors_view(s: Seq<TsError>)
    ensures
        errors_view(s).len() == s.len(),
        forall|i: int| 0 <= i < s.len() ==> errors_view(s)[i] == (#[trigger] s[i])@,
    decreases s.len(),
{
    if s.len() > 0 {
        lemma_errors_view(s.drop_last());
        assert forall|i: int| 0 <= i < s.len() implies errors_view(s)[i] == (#[trigger] s[i])@ by {
            if i < s.len() - 1 {
                assert(s.drop_last()[i] == s[i]);
            }
        }
    }
}

/// An append-only list of configuration errors, drained exactly once by
/// `check`.
#[derive(Debug)]
pub struct ErrorTracker {
    errors: Vec<TsError>,
}

impl View for ErrorTracker {
    type V = Seq<ErrM>;

    closed spec fn view(&self) -> Seq<ErrM> {
        errors_view(self.errors@)
    }
}

impl ErrorTracker {
    /// An empty tracker.
    pub fn new() -> (r: Self)
        ensures
            r@ == Seq::<ErrM>::empty(),
    {
        let r = ErrorTracker { errors: Vec::new() };
        proof {
            lemma_errors_view(r.errors@);
            assert(r@ =~= Seq::<ErrM>::empty());
        }
        r
    }

    /// Records one error.
    pub fn add_error(&mut self, span: u64, message: &str)
        ensures
            final(self)@ == old(self)@.push(ErrM { span, message: message@ }),
    {
        let e = TsError { span, message: String::from_str(message) };
        let ghost before = self.errors@;
        self.errors.push(e);
        proof {
            assert(self.errors@.drop_last() =~= before);
        }
    }

    /// Whether any error has been recorded.
    pub fn is_empty(&self) -> (r: bool)
        ensures
            r == (self@.len() == 0),
    {
        proof {
            lemma_errors_view(self.errors@);
        }
        self.errors.len() == 0
    }

    /// Drains the tracker: succeeds when no error was recorded, and
    /// otherwise hands back every recorded error, combined and in order.
    pub fn check(self) -> (r: Result<(), Vec<TsError>>)
        ensures
            self@.len() == 0 <==> r is Ok,
            r is Err ==> errors_view(r->Err_0@) == self@,
    {
        proof {
            lemma_errors_view(self.errors@);
        }
        if self.errors.len() == 0 {
            Ok(())
        } else {
            Err(self.errors)
        }
    }
}

} // verus!
