//! What a replay reports when table and model disagree, and the words it
//! reports it in.

use vstd::prelude::*;
use vstd::string::StringExecFns;

verus! {

/// What table and model disagreed about.
#[allow(inconsistent_fields)]
#[derive(Debug, Clone, Copy, PartialEq, Eq)]
pub enum Mismatch {
    /// `allocate` yielded another descriptor than the model expected.
    Allocate { expected: i32, got: i32 },
    /// `allocate_min` yielded another descriptor than the model expected.
    AllocateMin { min_fd: i32, expected: i32, got: i32 },
    /// `allocate_at` returned another prior entry than the model had.
    AllocateAt { vfd: i32, expected: Option<i32>, got: Option<i32> },
    /// `deallocate` returned another entry than the model had.
    Deallocate { vfd: i32, expected: Option<i32>, got: Option<i32> },
    /// `duplicate` yielded another descriptor than the model expected.
    DuplicateTarget { old_vfd: i32, expected: i32, got: i32 },
    /// `duplicate` succeeded where the model has no source, or the reverse.
    Duplicate { old_vfd: i32, expected: Option<i32>, got: Option<i32> },
    /// `duplicate_at` returned an entry although the model has no source.
    DuplicateAtMissing { old_vfd: i32, new_vfd: i32 },
    /// `duplicate_at` returned another prior entry than the model had.
    DuplicateAt { old_vfd: i32, new_vfd: i32, expected: Option<i32>, got: Option<i32> },
    /// A descriptor translates to something else than the model has for it.
    Translate { vfd: i32, expected: Option<i32>, got: Option<i32> },
}

/// The text that `format!` gives for a descriptor with `{}`.
pub uninterp spec fn i32_text(x: i32) -> Seq<char>;

/// The text that `format!` gives for the index of a step with `{}`.
pub uninterp spec fn usize_text(x: usize) -> Seq<char>;

/// The text that `format!` gives for an optional descriptor with `{:?}`.
pub uninterp spec fn option_text(x: Option<i32>) -> Seq<char>;

/// Calls `format!` with `{}` on an `i32`, which writes the number as `Display`
/// does. The contract gives the text its name.
#[verifier::external_body]
fn show_i32(x: i32) -> (text: String)
    ensures
        text@ == i32_text(x),
{
    format!("{}", x)
}

/// Calls `format!` with `{}` on a `usize`, which writes the number as
/// `Display` does. The contract gives the text its name.
#[verifier::external_body]
fn show_usize(x: usize) -> (text: String)
    ensures
        text@ == usize_text(x),
{
    format!("{}", x)
}

/// Calls `format!` with `{:?}` on an `Option<i32>`, which writes the value as
/// `Debug` does. The contract gives the text its name.
#[verifier::external_body]
fn show_option(x: Option<i32>) -> (text: String)
    ensures
        text@ == option_text(x),
{
    format!("{:?}", x)
}

/// An operation with one argument, as it is written in a message.
pub open spec fn call_text(name: Seq<char>, arg: Seq<char>) -> Seq<char> {
    name + "("@ + arg + ")"@
}

/// An operation with two arguments, as it is written in a message.
pub open spec fn call2_text(name: Seq<char>, first: Seq<char>, second: Seq<char>) -> Seq<char> {
    name + "("@ + first + ", "@ + second + ")"@
}

/// The message that `what` gave `got` where `expected` was expected.
pub open spec fn expected_got_text(what: Seq<char>, expected: Seq<char>, got: Seq<char>) -> Seq<
    char,
> {
    what + " mismatch: expected "@ + expected + ", got "@ + got
}

/// A message with the index of the step in front.
pub open spec fn step_text(step: Seq<char>, message: Seq<char>) -> Seq<char> {
    "step "@ + step + ": "@ + message
}

/// Write an operation with one argument.
pub fn write_call(name: &str, arg: &str) -> (text: String)
    ensures
        text@ == call_text(name@, arg@),
{
    String::from_str(name).concat("(").concat(arg).concat(")")
}

/// Write an operation with two arguments.
pub fn write_call2(name: &str, first: &str, second: &str) -> (text: String)
    ensures
        text@ == call2_text(name@, first@, second@),
{
    String::from_str(name).concat("(").concat(first).concat(", ").concat(second).concat(")")
}

/// Write that `what` gave `got` where `expected` was expected.
pub fn write_expected_got(what: &str, expected: &str, got: &str) -> (text: String)
    ensures
        text@ == expected_got_text(what@, expected@, got@),
{
    String::from_str(what).concat(" mismatch: expected ").concat(expected).concat(", got ").concat(
        got,
    )
}

/// Put the index of a step, already written out, in front of a message.
pub fn write_at_step(step: &str, message: &str) -> (text: String)
    ensures
        text@ == step_text(step@, message@),
{
    String::from_str("step ").concat(step).concat(": ").concat(message)
}

/// The words for a mismatch.
pub open spec fn mismatch_text(mismatch: Mismatch) -> Seq<char> {
    match mismatch {
        Mismatch::Allocate { expected, got } => expected_got_text(
            "allocate"@,
            i32_text(expected),
            i32_text(got),
        ),
        Mismatch::AllocateMin { min_fd, expected, got } => expected_got_text(
            call_text("allocate_min"@, "min="@ + i32_text(min_fd)),
            i32_text(expected),
            i32_text(got),
        ),
        Mismatch::AllocateAt { vfd, expected, got } => expected_got_text(
            call_text("allocate_at"@, i32_text(vfd)) + " old"@,
            option_text(expected),
            option_text(got),
        ),
        Mismatch::Deallocate { vfd, expected, got } => expected_got_text(
            call_text("deallocate"@, i32_text(vfd)),
            option_text(expected),
            option_text(got),
        ),
        Mismatch::DuplicateTarget { old_vfd, expected, got } => expected_got_text(
            call_text("duplicate"@, i32_text(old_vfd)),
            "new_vfd "@ + i32_text(expected),
            i32_text(got),
        ),
        Mismatch::Duplicate { old_vfd, expected, got } => expected_got_text(
            call_text("duplicate"@, i32_text(old_vfd)),
            option_text(expected),
            option_text(got),
        ),
        Mismatch::DuplicateAtMissing { old_vfd, new_vfd } => call2_text(
            "duplicate_at"@,
            i32_text(old_vfd),
            i32_text(new_vfd),
        ) + " should have failed (src missing)"@,
        Mismatch::DuplicateAt { old_vfd, new_vfd, expected, got } => expected_got_text(
            call2_text("duplicate_at"@, i32_text(old_vfd), i32_text(new_vfd)) + " old"@,
            option_text(expected),
            option_text(got),
        ),
        Mismatch::Translate { vfd, expected, got } => expected_got_text(
            call_text("translate"@, i32_text(vfd)),
            option_text(expected),
            option_text(got),
        ),
    }
}

/// The words for a mismatch at a step.
pub open spec fn failure_text(step: usize, mismatch: Mismatch) -> Seq<char> {
    step_text(usize_text(step), mismatch_text(mismatch))
}

impl Mismatch {
    /// The mismatch in words.
    pub fn message(&self) -> (text: String)
        ensures
            text@ == mismatch_text(*self),
    {
        match *self {
            Mismatch::Allocate { expected, got } => write_expected_got(
                "allocate",
                show_i32(expected).as_str(),
                show_i32(got).as_str(),
            ),
            Mismatch::AllocateMin { min_fd, expected, got } => {
                let arg = String::from_str("min=").concat(show_i32(min_fd).as_str());
                write_expected_got(
                    write_call("allocate_min", arg.as_str()).as_str(),
                    show_i32(expected).as_str(),
                    show_i32(got).as_str(),
                )
            },
            Mismatch::AllocateAt { vfd, expected, got } => {
                let what = write_call("allocate_at", show_i32(vfd).as_str()).concat(" old");
                write_expected_got(
                    what.as_str(),
                    show_option(expected).as_str(),
                    show_option(got).as_str(),
                )
            },
            Mismatch::Deallocate { vfd, expected, got } => write_expected_got(
                write_call("deallocate", show_i32(vfd).as_str()).as_str(),
                show_option(expected).as_str(),
                show_option(got).as_str(),
            ),
            Mismatch::DuplicateTarget { old_vfd, expected, got } => {
                let wanted = String::from_str("new_vfd ").concat(show_i32(expected).as_str());
                write_expected_got(
                    write_call("duplicate", show_i32(old_vfd).as_str()).as_str(),
                    wanted.as_str(),
                    show_i32(got).as_str(),
                )
            },
            Mismatch::Duplicate { old_vfd, expected, got } => write_expected_got(
                write_call("duplicate", show_i32(old_vfd).as_str()).as_str(),
                show_option(expected).as_str(),
                show_option(got).as_str(),
            ),
            Mismatch::DuplicateAtMissing { old_vfd, new_vfd } => write_call2(
                "duplicate_at",
                show_i32(old_vfd).as_str(),
                show_i32(new_vfd).as_str(),
            ).concat(" should have failed (src missing)"),
            Mismatch::DuplicateAt { old_vfd, new_vfd, expected, got } => {
                let what = write_call2(
                    "duplicate_at",
                    show_i32(old_vfd).as_str(),
                    show_i32(new_vfd).as_str(),
                ).concat(" old");
                write_expected_got(
                    what.as_str(),
                    show_option(expected).as_str(),
                    show_option(got).as_str(),
                )
            },
            Mismatch::Translate { vfd, expected, got } => write_expected_got(
                write_call("translate", show_i32(vfd).as_str()).as_str(),
                show_option(expected).as_str(),
                show_option(got).as_str(),
            ),
        }
    }

    /// The mismatch in words, with the index of the step in front.
    pub fn message_at(&self, step: usize) -> (text: String)
        ensures
            text@ == failure_text(step, *self),
    {
        write_at_step(show_usize(step).as_str(), self.message().as_str())
    }
}

} // verus!
