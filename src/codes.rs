//! The registry of diagnostic codes: each code is a path of segments, a
//! default severity and a description.

use vstd::prelude::*;
use vstd::string::*;
use crate::diagnostics::{unimplemented_code, Severity};
use crate::text::Text;

verus! {

/// A diagnostic code.
#[derive(Debug, Clone, PartialEq, Eq, Hash)]
pub struct ErrorCode {
    pub segments: Vec<Text>,
    pub severity: Severity,
    pub description: Text,
}

/// Segments joined by `::`.
pub open spec fn joined(segments: Seq<Seq<char>>) -> Seq<char>
    decreases segments.len(),
{
    if segments.len() == 0 {
        Seq::empty()
    } else if segments.len() == 1 {
        segments[0]
    } else {
        joined(segments.drop_last()) + "::"@ + segments.last()
    }
}

/// The models of a sequence of texts.
pub open spec fn texts_model(v: Seq<Text>) -> Seq<Seq<char>> {
    v.map_values(|t: Text| t@)
}

impl ErrorCode {
    /// The full name of the code, its segments joined by `::`.
    pub fn name(&self) -> (r: Text)
        ensures
            r@ == joined(texts_model(self.segments@)),
    {
        let ghost segs = texts_model(self.segments@);
        let mut out = String::new();
        let mut i: usize = 0;
        while i < self.segments.len()
            invariant
                0 <= i <= self.segments.len(),
                segs == texts_model(self.segments@),
                out@ == joined(segs.subrange(0, i as int)),
            decreases self.segments.len() - i,
        {
            assert(segs.subrange(0, i as int + 1).drop_last() =~= segs.subrange(0, i as int));
            if i > 0 {
                out.append("::");
            } else {
                assert(out@ =~= Seq::<char>::empty());
            }
            out.append(self.segments[i].as_str());
            assert(out@ =~= joined(segs.subrange(0, i as int + 1)));
            i = i + 1;
        }
        assert(segs.subrange(0, i as int) =~= segs);
        Text { value: out }
    }
}

/// The code of diagnostics about constructs that the compiler does not
/// handle yet.
pub fn unimplemented() -> (r: ErrorCode)
    ensures
        joined(texts_model(r.segments@)) == unimplemented_code(),
        r.severity == Severity::Bug,
{
    let mut segments: Vec<Text> = Vec::new();
    segments.push(Text::new("type_check"));
    segments.push(Text::new("unimplemented"));
    proof {
        reveal_strlit("type_check");
        reveal_strlit("unimplemented");
        reveal_strlit("::");
        reveal_strlit("type_check::unimplemented");
        let s = texts_model(segments@);
        assert(s.drop_last() =~= seq!["type_check"@]);
        assert(joined(s.drop_last()) == "type_check"@);
        assert(joined(s) == "type_check"@ + "::"@ + "unimplemented"@);
        assert(joined(s) =~= "type_check::unimplemented"@);
    }
    ErrorCode {
        segments,
        severity: Severity::Bug,
        description: Text::new("A construct that the compiler does not handle yet"),
    }
}

/// A code in namespace `namespace` named `name`.
fn namespaced(namespace: &str, name: &str, severity: Severity, description: &str) -> (r: ErrorCode)
    ensures
        joined(texts_model(r.segments@)) == namespace@ + "::"@ + name@,
        r.severity == severity,
{
    let mut segments: Vec<Text> = Vec::new();
    segments.push(Text::new(namespace));
    segments.push(Text::new(name));
    proof {
        let s = texts_model(segments@);
        assert(s.drop_last() =~= seq![namespace@]);
        assert(joined(s.drop_last()) == namespace@);
    }
    ErrorCode { segments, severity, description: Text::new(description) }
}

/// The code of a token the parser expected and did not find.
pub fn missing_token() -> (r: ErrorCode)
    ensures
        joined(texts_model(r.segments@)) == "parse"@ + "::"@ + "missing_token"@,
        r.severity == Severity::Error,
{
    namespaced("parse", "missing_token", Severity::Error, "A token the grammar requires is missing")
}

/// The code of a token the parser did not expect.
pub fn unexpected_token() -> (r: ErrorCode)
    ensures
        joined(texts_model(r.segments@)) == "parse"@ + "::"@ + "unexpected_token"@,
        r.severity == Severity::Error,
{
    namespaced("parse", "unexpected_token", Severity::Error, "A token the grammar does not allow here")
}

/// Every diagnostic code of the compiler.
#[derive(Debug, Clone, PartialEq, Eq)]
pub struct ErrorCodes {
    pub codes: Vec<ErrorCode>,
}

impl ErrorCodes {
    /// The registry.
    pub fn all() -> (r: ErrorCodes)
        ensures
            r.codes@.len() == 3,
            joined(texts_model(r.codes@[0].segments@)) == "parse"@ + "::"@ + "missing_token"@,
            joined(texts_model(r.codes@[1].segments@)) == "parse"@ + "::"@ + "unexpected_token"@,
            joined(texts_model(r.codes@[2].segments@)) == unimplemented_code(),
    {
        let mut codes: Vec<ErrorCode> = Vec::new();
        codes.push(missing_token());
        codes.push(unexpected_token());
        codes.push(unimplemented());
        ErrorCodes { codes }
    }

    /// The index of the code whose full name is `name`.
    pub fn find(&self, name: &str) -> (r: Option<usize>)
        ensures
            match r {
                Some(i) => i < self.codes@.len() && joined(texts_model(self.codes@[i as int].segments@))
                    == name@,
                None => forall|i: int|
                    0 <= i < self.codes@.len() ==> joined(texts_model(#[trigger] self.codes@[i].segments@))
                        != name@,
            },
    {
        let mut i: usize = 0;
        while i < self.codes.len()
            invariant
                0 <= i <= self.codes.len(),
                forall|j: int|
                    0 <= j < i ==> joined(texts_model(#[trigger] self.codes@[j].segments@)) != name@,
            decreases self.codes.len() - i,
        {
            if self.codes[i].name().equals_str(name) {
                return Some(i);
            }
            i = i + 1;
        }
        None
    }
}

} // verus!
