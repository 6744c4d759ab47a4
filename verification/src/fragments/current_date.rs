//! A fragment that tells the model the current date and time.

use chrono::Datelike;
use vstd::prelude::*;

use crate::generic::GenericMessage;
use crate::generic::GenericRole;
use crate::prompt::builder::line;
use crate::prompt::builder::PromptBuilder;
use crate::template::IntoPrompt;
use crate::text::concat_text;
use crate::text::option_text;

verus! {

/// One reading of the clock, in Coordinated Universal Time, written out.
#[derive(Debug, Clone)]
pub struct ClockReading {
    /// Date and time with the offset, as RFC 3339 writes them.
    pub timestamp: String,
    /// The date: year, month and day, joined by hyphens.
    pub date: String,
    /// The time of day: hours, minutes and seconds, joined by colons.
    pub time: String,
    /// The name of the day of the week.
    pub weekday: String,
    /// The name of the time zone.
    pub timezone: String,
}

/// Calls `chrono::Utc::now` and writes out what it returns. Nothing is
/// promised of the reading: it depends on when the call is made.
#[verifier::external_body]
fn read_utc_clock() -> ClockReading {
    let now = chrono::Utc::now();
    ClockReading {
        timestamp: now.to_rfc3339(),
        date: now.format("%Y-%m-%d").to_string(),
        time: now.format("%H:%M:%S").to_string(),
        weekday: now.weekday().to_string(),
        timezone: now.timezone().to_string(),
    }
}

/// The text that tells the model of a clock reading.
pub open spec fn current_date_text(
    timestamp: Seq<char>,
    date: Seq<char>,
    time: Seq<char>,
    weekday: Seq<char>,
    timezone: Seq<char>,
) -> Seq<char> {
    line("**"@ + "Current ISO Timestamp"@ + "**: "@ + timestamp) + line(
        "**"@ + "Current Date and Time"@ + "**: "@ + (date + " "@ + time),
    ) + line("**"@ + "Current Weekday"@ + "**: "@ + weekday) + line(
        "**"@ + "Timezone"@ + "**: "@ + "UTC"@,
    ) + line(
        "You are currently reasoning in the context of "@ + weekday + ", "@ + date + ", "@ + time
            + ", "@ + timezone,
    ) + "\n"@ + line(
        "Use this information when interpreting natural language expressions like 'next week' or 'in 3 days'."@,
    )
}

/// The message that tells the model of the clock reading `reading`: a
/// system message with the text that [`current_date_text`] describes.
pub fn current_date_message(reading: &ClockReading) -> (message: GenericMessage)
    ensures
        message.role == GenericRole::System,
        option_text(message.content) == Some(
            current_date_text(
                reading.timestamp@,
                reading.date@,
                reading.time@,
                reading.weekday@,
                reading.timezone@,
            ),
        ),
        message.name is None,
        message.tool_calls is None,
        message.tool_call_id is None,
{
    let mut date_and_time: String = concat_text(reading.date.as_str(), " ");
    date_and_time = concat_text(date_and_time.as_str(), reading.time.as_str());
    let mut context: String = concat_text(
        "You are currently reasoning in the context of ",
        reading.weekday.as_str(),
    );
    context = concat_text(context.as_str(), ", ");
    context = concat_text(context.as_str(), reading.date.as_str());
    context = concat_text(context.as_str(), ", ");
    context = concat_text(context.as_str(), reading.time.as_str());
    context = concat_text(context.as_str(), ", ");
    context = concat_text(context.as_str(), reading.timezone.as_str());
    let builder = PromptBuilder::new().add_key_value(
        "Current ISO Timestamp",
        reading.timestamp.as_str(),
    ).add_key_value("Current Date and Time", date_and_time.as_str()).add_key_value(
        "Current Weekday",
        reading.weekday.as_str(),
    ).add_key_value("Timezone", "UTC").add_line(context.as_str()).add_blank_line().add_line(
        "Use this information when interpreting natural language expressions like 'next week' or 'in 3 days'.",
    );
    let text: String = builder.finalize();
    proof {
        assert(text@ =~= current_date_text(
            reading.timestamp@,
            reading.date@,
            reading.time@,
            reading.weekday@,
            reading.timezone@,
        ));
    }
    GenericMessage::new(text, GenericRole::System)
}

/// The fragment that tells the model the current date and time.
#[derive(Default)]
pub struct CurrentDateFragment;

impl CurrentDateFragment {
    /// The fragment.
    pub fn new() -> CurrentDateFragment {
        CurrentDateFragment
    }
}

impl IntoPrompt for CurrentDateFragment {
    type Message = GenericMessage;

    /// One system message whose text tells of some clock reading.
    open spec fn prompts(&self, messages: Seq<GenericMessage>) -> bool {
        &&& messages.len() == 1
        &&& messages[0].role == GenericRole::System
        &&& exists|
            timestamp: Seq<char>,
            date: Seq<char>,
            time: Seq<char>,
            weekday: Seq<char>,
            timezone: Seq<char>,
        |
            option_text(messages[0].content) == Some(
                #[trigger] current_date_text(timestamp, date, time, weekday, timezone),
            )
        &&& messages[0].name is None
        &&& messages[0].tool_calls is None
        &&& messages[0].tool_call_id is None
    }

    fn into_prompt(self) -> (messages: Vec<GenericMessage>) {
        let reading: ClockReading = read_utc_clock();
        let mut messages: Vec<GenericMessage> = Vec::new();
        messages.push(current_date_message(&reading));
        proof {
            assert(option_text(messages@[0].content) == Some(
                current_date_text(
                    reading.timestamp@,
                    reading.date@,
                    reading.time@,
                    reading.weekday@,
                    reading.timezone@,
                ),
            ));
        }
        messages
    }
}

} // verus!
