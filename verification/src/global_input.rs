//! Reading one answer from the operator's terminal.
//!
//! The raw read is trusted; normalizing what was read — trimming and
//! lowercasing — and recognizing a yes are verified.

use vstd::prelude::*;

use crate::text::str_eq;

verus! {

#[verifier::external_type_specification]
#[verifier::external_body]
pub struct ExStdin(std::io::Stdin);

/// What one raw read attempt came back with.
enum RawRead {
    Line(String),
    Interrupted,
    Failed(String),
}

/// Relies on std::io::Stdin::read_line: one line read from the terminal,
/// with an interrupted read reported apart so it can be retried.
#[verifier::external_body]
fn read_raw_line(stdin: &mut std::io::Stdin) -> (r: RawRead) {
    let mut buffer = String::new();
    match stdin.read_line(&mut buffer) {
        Ok(_) => RawRead::Line(buffer),
        Err(e) if e.kind() == std::io::ErrorKind::Interrupted => RawRead::Interrupted,
        Err(e) => RawRead::Failed(e.to_string()),
    }
}

/// What `str::trim` removes: the result depends on the characters alone.
pub uninterp spec fn trim_of(s: Seq<char>) -> Seq<char>;

/// Relies on str::trim: whitespace removed from both ends; the result
/// depends on the characters alone.
#[verifier::external_body]
fn trim_str(s: &str) -> (r: String)
    ensures
        r@ == trim_of(s@),
        r@.len() <= s@.len(),
{
    s.trim().to_string()
}

/// What `str::to_lowercase` yields: the result depends on the characters
/// alone.
pub uninterp spec fn lower_of(s: Seq<char>) -> Seq<char>;

/// Relies on str::to_lowercase: the result depends on the characters alone.
#[verifier::external_body]
fn lower_str(s: &str) -> (r: String)
    ensures
        r@ == lower_of(s@),
{
    s.to_lowercase()
}

/// How a raw answer line is normalized before it is interpreted.
pub fn normalize_answer(raw: &str) -> (r: String)
    ensures
        r@ == lower_of(trim_of(raw@)),
{
    let t = trim_str(raw);
    lower_str(t.as_str())
}

/// Whether a normalized answer consents.
pub fn is_yes(answer: &str) -> (r: bool)
    ensures
        r == (answer@ == "y"@),
{
    str_eq(answer, "y")
}

/// The terminal the operator answers prompts on.
pub struct GlobalInput {
    stdin: std::io::Stdin,
}

impl GlobalInput {
    pub fn new(stdin: std::io::Stdin) -> GlobalInput {
        GlobalInput { stdin }
    }

    /// Reads one answer, retrying interrupted reads a bounded number of
    /// times, and hands it back trimmed and lowercased.
    pub fn read_line(&mut self) -> (r: Result<String, String>)
        ensures
            r matches Ok(a) ==> exists|raw: Seq<char>| a@ == lower_of(trim_of(raw)),
    {
        let mut attempts: usize = 0;
        while attempts < 1000
            invariant
                attempts <= 1000,
            decreases 1000 - attempts,
        {
            match read_raw_line(&mut self.stdin) {
                RawRead::Line(buffer) => {
                    let a = normalize_answer(buffer.as_str());
                    proof {
                        assert(a@ == lower_of(trim_of(buffer@)));
                    }
                    return Ok(a);
                },
                RawRead::Interrupted => {
                    attempts += 1;
                },
                RawRead::Failed(e) => {
                    return Err(e);
                },
            }
        }
        Err("interrupted".to_owned())
    }
}

} // verus!
