//! The record model: the shape records are decoded into, the shape they
//! are displayed in, and the transformation between the two.

use vstd::prelude::*;

verus! {

/// One diagnostic record as decoded from the input document.
pub struct Problem {
    /// Path-like identifier of the file the record points at.
    pub resource: String,
    /// 1-based line number the record points at.
    pub start_line_number: u32,
    /// The diagnostic text; the filter looks only at this field.
    pub message: String,
}

/// Mathematical image of a `Problem`.
pub struct ProblemView {
    pub resource: Seq<char>,
    pub start_line_number: u32,
    pub message: Seq<char>,
}

impl View for Problem {
    type V = ProblemView;

    open spec fn view(&self) -> ProblemView {
        ProblemView {
            resource: self.resource@,
            start_line_number: self.start_line_number,
            message: self.message@,
        }
    }
}

impl DeepView for Problem {
    type V = ProblemView;

    open spec fn deep_view(&self) -> ProblemView {
        self.view()
    }
}

/// One surviving record, reshaped for display.
pub struct ProblemOutput {
    /// At most the last two `/`-separated segments of the resource.
    pub resource: String,
    /// The message, clipped to at most 150 characters.
    pub message: String,
    /// The line number, carried through unchanged.
    pub line: u32,
}

/// Mathematical image of a `ProblemOutput`.
pub struct OutputView {
    pub resource: Seq<char>,
    pub message: Seq<char>,
    pub line: u32,
}

impl View for ProblemOutput {
    type V = OutputView;

    open spec fn view(&self) -> OutputView {
        OutputView { resource: self.resource@, message: self.message@, line: self.line }
    }
}

impl DeepView for ProblemOutput {
    type V = OutputView;

    open spec fn deep_view(&self) -> OutputView {
        self.view()
    }
}

/// Index of the last `/` in the text, or -1 when there is none.
pub open spec fn last_slash(s: Seq<char>) -> int
    decreases s.len(),
{
    if s.len() == 0 {
        -1
    } else if s[s.len() - 1] == '/' {
        s.len() - 1
    } else {
        last_slash(s.drop_last())
    }
}

pub proof fn lemma_last_slash(s: Seq<char>)
    ensures
        -1 <= last_slash(s) < s.len(),
        last_slash(s) == -1 ==> forall|j: int| 0 <= j < s.len() ==> s[j] != '/',
        last_slash(s) >= 0 ==> {
            &&& s[last_slash(s)] == '/'
            &&& forall|j: int| last_slash(s) < j < s.len() ==> s[j] != '/'
        },
    decreases s.len(),
{
    if s.len() > 0 && s[s.len() - 1] != '/' {
        lemma_last_slash(s.drop_last());
        assert forall|j: int| 0 <= j < s.len() - 1 implies s.drop_last()[j] == s[j] by {}
    }
}

/// The resource as displayed: at most its last two `/`-separated
/// segments, the filename plus its immediate parent directory. A text
/// without `/`, or with a single `/` and a nonempty parent, is already
/// that and stays unchanged; with a leading `/` alone the empty parent
/// is dropped and the filename stands by itself.
pub open spec fn spec_short_resource(s: Seq<char>) -> Seq<char> {
    let p = last_slash(s);
    if p < 0 {
        s
    } else {
        let q = last_slash(s.subrange(0, p));
        if q >= 0 {
            s.subrange(q + 1, s.len() as int)
        } else if p > 0 {
            s
        } else {
            s.subrange(1, s.len() as int)
        }
    }
}

/// The message as displayed: unchanged up to 150 characters, otherwise
/// the first 147 characters followed by `...` (exactly 150 in all).
pub open spec fn spec_clipped_message(m: Seq<char>) -> Seq<char> {
    if m.len() > 150 {
        m.subrange(0, 147) + "..."@
    } else {
        m
    }
}

/// The display image of one record: truncated path, clipped message,
/// unchanged line number.
pub open spec fn output_of(p: ProblemView) -> OutputView {
    OutputView {
        resource: spec_short_resource(p.resource),
        message: spec_clipped_message(p.message),
        line: p.start_line_number,
    }
}

/// Finds the last `/` in the string, scanning from the end.
fn rfind_slash(s: &str) -> (r: Option<usize>)
    ensures
        match r {
            Some(p) => last_slash(s@) == p as int,
            None => last_slash(s@) == -1,
        },
{
    let n = s.unicode_len();
    let mut i: usize = n;
    proof {
        lemma_last_slash(s@);
    }
    while i > 0
        invariant
            n == s@.len(),
            i <= n,
            forall|j: int| i <= j < n ==> s@[j] != '/',
        decreases i,
    {
        if s.get_char(i - 1) == '/' {
            proof {
                lemma_last_slash(s@);
                let gl = last_slash(s@);
                if gl >= 0 && gl > i - 1 {
                    assert(s@[gl] != '/');
                }
                assert(gl == i - 1);
            }
            return Some(i - 1);
        }
        i -= 1;
    }
    proof {
        lemma_last_slash(s@);
        if last_slash(s@) >= 0 {
            assert(s@[last_slash(s@)] != '/');
        }
    }
    None
}

impl ProblemOutput {
    /// Reshapes one record for display: truncates the path to its last
    /// two segments, clips the message to 150 characters, and carries
    /// the line number through.
    pub fn new(problem: &Problem) -> (r: ProblemOutput)
        ensures
            r.resource@ == spec_short_resource(problem.resource@),
            r.message@ == spec_clipped_message(problem.message@),
            r.line == problem.start_line_number,
    {
        let rlen = problem.resource.as_str().unicode_len();
        proof {
            lemma_last_slash(problem.resource@);
        }
        let resource: String = match rfind_slash(problem.resource.as_str()) {
            None => problem.resource.clone(),
            Some(p) => {
                let prefix = problem.resource.as_str().substring_char(0, p);
                proof {
                    lemma_last_slash(problem.resource@.subrange(0, p as int));
                }
                match rfind_slash(prefix) {
                    Some(q) => problem.resource.as_str().substring_char(q + 1, rlen).to_owned(),
                    None => {
                        if p > 0 {
                            problem.resource.clone()
                        } else {
                            problem.resource.as_str().substring_char(1, rlen).to_owned()
                        }
                    },
                }
            },
        };
        let mlen = problem.message.as_str().unicode_len();
        let message: String = if mlen > 150 {
            let head = problem.message.as_str().substring_char(0, 147);
            head.to_owned().concat("...")
        } else {
            problem.message.clone()
        };
        ProblemOutput { resource, message, line: problem.start_line_number }
    }
}

} // verus!
