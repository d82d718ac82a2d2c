//! What a run tells the one who started it: a line of status text and a
//! progress fraction.

use vstd::prelude::*;
use vstd::string::*;
use crate::pipeline::{ConversionError, ConversionFailure};
use crate::progress::{fraction_of, ConversionOutcome, ProgressFraction};

verus! {

/// A line of status and the progress to show with it.
#[derive(Debug, PartialEq, Eq)]
pub struct StatusUpdate {
    pub status: String,
    pub progress: ProgressFraction,
}

/// The character of a decimal digit.
pub open spec fn digit_char(digit: nat) -> char {
    if digit == 0 {
        '0'
    } else if digit == 1 {
        '1'
    } else if digit == 2 {
        '2'
    } else if digit == 3 {
        '3'
    } else if digit == 4 {
        '4'
    } else if digit == 5 {
        '5'
    } else if digit == 6 {
        '6'
    } else if digit == 7 {
        '7'
    } else if digit == 8 {
        '8'
    } else {
        '9'
    }
}

/// A number written in decimal, without leading zeros.
pub open spec fn decimal(n: nat) -> Seq<char>
    decreases n,
{
    if n < 10 {
        seq![digit_char(n)]
    } else {
        decimal(n / 10).push(digit_char(n % 10))
    }
}

/// The text of a failure: what the user is told when a run could not start.
pub open spec fn failure_text(failure: ConversionFailure) -> Seq<char> {
    match failure {
        ConversionFailure::InvalidDirectories => "Invalid folder path(s)"@,
        ConversionFailure::ScanError(message) => message,
        ConversionFailure::NoCandidates => "No supported RAW files found"@,
    }
}

/// The text of a finished run.
pub open spec fn outcome_text(succeeded: nat) -> Seq<char> {
    "Converted "@ + decimal(succeeded) + " images"@
}

fn digit_text(digit: usize) -> (text: &'static str)
    requires
        digit < 10,
    ensures
        text@ == seq![digit_char(digit as nat)],
{
    proof {
        reveal_strlit("0");
        reveal_strlit("1");
        reveal_strlit("2");
        reveal_strlit("3");
        reveal_strlit("4");
        reveal_strlit("5");
        reveal_strlit("6");
        reveal_strlit("7");
        reveal_strlit("8");
        reveal_strlit("9");
    }
    let text = if digit == 0 {
        "0"
    } else if digit == 1 {
        "1"
    } else if digit == 2 {
        "2"
    } else if digit == 3 {
        "3"
    } else if digit == 4 {
        "4"
    } else if digit == 5 {
        "5"
    } else if digit == 6 {
        "6"
    } else if digit == 7 {
        "7"
    } else if digit == 8 {
        "8"
    } else {
        "9"
    };
    assert(text@ =~= seq![digit_char(digit as nat)]);
    text
}

/// Writes `n` in decimal at the end of `text`.
pub fn append_decimal(text: &mut String, n: usize)
    ensures
        final(text)@ == old(text)@ + decimal(n as nat),
    decreases n,
{
    if n >= 10 {
        append_decimal(text, n / 10);
    }
    text.append(digit_text(n % 10));
    assert(text@ =~= old(text)@ + decimal(n as nat));
}

impl ConversionError {
    /// The text shown for this failure.
    pub fn message(&self) -> (text: String)
        ensures
            text@ == failure_text(self@),
    {
        match self {
            ConversionError::InvalidDirectories => String::from_str("Invalid folder path(s)"),
            ConversionError::ScanError(message) => message.clone(),
            ConversionError::NoCandidates => String::from_str("No supported RAW files found"),
        }
    }
}

/// The last report of a run. A finished run says how many images it
/// converted and shows its final fraction; a run that could not start says
/// why and shows no progress.
pub fn final_status(result: &Result<ConversionOutcome, ConversionError>) -> (update: StatusUpdate)
    ensures
        update.progress.is_proper(),
        match result {
            Ok(outcome) => {
                &&& update.status@ == outcome_text(outcome.succeeded())
                &&& (update.progress.numerator as nat, update.progress.denominator as nat)
                    == fraction_of(outcome.succeeded(), outcome.total())
            },
            Err(error) => {
                &&& update.status@ == failure_text(error@)
                &&& update.progress == (ProgressFraction { numerator: 0, denominator: 1 })
            },
        },
{
    match result {
        Ok(outcome) => {
            let mut status = String::from_str("Converted ");
            append_decimal(&mut status, outcome.succeeded_count());
            status.append(" images");
            StatusUpdate { status, progress: outcome.final_progress_fraction() }
        },
        Err(error) => StatusUpdate {
            status: error.message(),
            progress: ProgressFraction { numerator: 0, denominator: 1 },
        },
    }
}

/// What pressing the button leads to: with both folders chosen the run may
/// start, under the status `Converting...` and no progress yet; with one of
/// them empty it may not, and the text asks for both.
pub fn start_status(source_folder: &str, destination_folder: &str) -> (result: Result<
    StatusUpdate,
    String,
>)
    ensures
        result is Ok <==> source_folder@.len() > 0 && destination_folder@.len() > 0,
        result matches Ok(update) ==> update.status@ == "Converting..."@ && update.progress == (
        ProgressFraction { numerator: 0, denominator: 1 }),
        result matches Err(text) ==> text@ == "Please select both folders"@,
{
    if source_folder.unicode_len() == 0 || destination_folder.unicode_len() == 0 {
        Err(String::from_str("Please select both folders"))
    } else {
        Ok(
            StatusUpdate {
                status: String::from_str("Converting..."),
                progress: ProgressFraction { numerator: 0, denominator: 1 },
            },
        )
    }
}

} // verus!
