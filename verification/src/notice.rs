//! What the timer announces when the time is over.
//!
//! A notification has a title and may have a body. It goes to the desktop.
//! Where its title is to be printed it goes to the console as well: the
//! title in bold red below a cleared screen, and the body, if there is one,
//! in bold black after it. Where the title is not to be printed, nothing
//! goes to the console. The numbers in the two sentences are handed over as
//! text, in minutes, as they are to be shown.

use crate::ansi::{clear_console, clear_console_text, text_mode, text_mode_text, TextMode};
use crate::countdown::Action;
use vstd::prelude::*;
use vstd::string::*;

verus! {

/// A notification, and whether it goes to the console as well, under its
/// title.
#[derive(Clone, Debug, PartialEq, Eq)]
pub struct Notification {
    pub title: String,
    pub body: Option<String>,
    pub print_title: bool,
}

/// The title of the notification for a timer of `duration` minutes.
pub open spec fn alert_title_text(duration: Seq<char>) -> Seq<char> {
    duration + " minutes over!"@
}

/// The body of the notification for a timer that reminds every `reminder`
/// minutes.
pub open spec fn repeat_body_text(reminder: Seq<char>) -> Seq<char> {
    "Repeats in "@ + reminder + " minutes."@
}

/// One line in bold and in the colour `colour`, and the return to the
/// default colour and weight after it.
pub open spec fn emphasized_line(colour: TextMode, line: Seq<char>) -> Seq<char> {
    text_mode_text(TextMode::Bold) + text_mode_text(colour) + line + seq!['\n'] + text_mode_text(
        TextMode::DefaultColor,
    ) + text_mode_text(TextMode::DisableBold)
}

/// What the console shows of the body: nothing, unless there is one.
pub open spec fn body_part(text: Option<Seq<char>>) -> Seq<char> {
    match text {
        Some(content) => emphasized_line(TextMode::Black, content),
        None => Seq::empty(),
    }
}

/// What the console shows of a notification: the cleared screen, the title
/// and the body where the title is to be printed, and nothing at all where
/// it is not.
pub open spec fn toast_console_text(
    title: Seq<char>,
    text: Option<Seq<char>>,
    print_title: bool,
) -> Seq<char> {
    if print_title {
        clear_console_text() + emphasized_line(TextMode::Red, title) + body_part(text)
    } else {
        Seq::empty()
    }
}

/// The body of a notification, as the contracts see it.
pub open spec fn body_view(text: &Option<String>) -> Option<Seq<char>> {
    match text {
        Some(content) => Some(content@),
        None => None,
    }
}

/// The body that goes with a reminder interval of `reminder` minutes, if
/// there is one.
pub open spec fn repeat_message_text(reminder: Option<&str>) -> Option<Seq<char>> {
    match reminder {
        Some(minutes) => Some(repeat_body_text(minutes@)),
        None => None,
    }
}

/// Whether `notification` is the one that follows `action` for a timer of
/// `duration` minutes with a reminder interval of `reminder` minutes: the
/// title printed after the alert, and not after a reminder.
pub open spec fn announces(
    notification: Notification,
    action: Action,
    duration: &str,
    reminder: Option<&str>,
) -> bool {
    &&& notification.title@ == alert_title_text(duration@)
    &&& body_view(&notification.body) == repeat_message_text(reminder)
    &&& notification.print_title == (action is Alert)
}

/// The title of the notification for a timer of `duration` minutes.
pub fn alert_title(duration: &str) -> (r: String)
    ensures
        r@ == alert_title_text(duration@),
{
    let mut r: String = String::from_str(duration);
    r.append(" minutes over!");
    r
}

/// The body of the notification for a timer that reminds every `reminder`
/// minutes.
pub fn repeat_body(reminder: &str) -> (r: String)
    ensures
        r@ == repeat_body_text(reminder@),
{
    let mut r: String = String::from_str("Repeats in ");
    r.append(reminder);
    r.append(" minutes.");
    r
}

/// The body of the notification for a timer whose reminder interval, if it
/// has one, is `reminder` minutes.
pub fn repeat_message(reminder: Option<&str>) -> (r: Option<String>)
    ensures
        body_view(&r) == repeat_message_text(reminder),
{
    match reminder {
        Some(minutes) => Some(repeat_body(minutes)),
        None => None,
    }
}

/// Appends one line in bold and in the colour `colour`.
fn push_emphasized(out: &mut String, colour: TextMode, line: &str)
    ensures
        final(out)@ == old(out)@ + emphasized_line(colour, line@),
{
    proof {
        reveal_strlit("\n");
    }
    let ghost before = out@;
    out.append(text_mode(TextMode::Bold).as_str());
    out.append(text_mode(colour).as_str());
    out.append(line);
    out.append("\n");
    out.append(text_mode(TextMode::DefaultColor).as_str());
    out.append(text_mode(TextMode::DisableBold).as_str());
    assert(out@ =~= before + emphasized_line(colour, line@));
}

/// What the console shows of a notification with the title `title` and the
/// body `text`: nothing, unless the title is to be printed.
pub fn toast_console(title: &str, text: &Option<String>, print_title: bool) -> (r: String)
    ensures
        r@ == toast_console_text(title@, body_view(text), print_title),
        !print_title ==> r@.len() == 0,
{
    let mut r: String = String::new();
    if print_title {
        r.append(clear_console().as_str());
        push_emphasized(&mut r, TextMode::Red, title);
        match text {
            Some(content) => {
                push_emphasized(&mut r, TextMode::Black, content.as_str());
            },
            None => {},
        }
        assert(r@ =~= toast_console_text(title@, body_view(text), print_title));
    }
    r
}

/// The notification that follows `action`, for a timer of `duration` minutes
/// with a reminder interval of `reminder` minutes: one after the alert and
/// after every reminder, none after anything else.
pub fn announcement(action: Action, duration: &str, reminder: Option<&str>) -> (r: Option<
    Notification,
>)
    ensures
        r is Some <==> action is Alert || action is Remind,
        r matches Some(notification) ==> announces(notification, action, duration, reminder),
{
    match action {
        Action::Alert { wait: _ } => Some(
            Notification {
                title: alert_title(duration),
                body: repeat_message(reminder),
                print_title: true,
            },
        ),
        Action::Remind { wait: _ } => Some(
            Notification {
                title: alert_title(duration),
                body: repeat_message(reminder),
                print_title: false,
            },
        ),
        _ => None,
    }
}

impl Notification {
    /// What the console shows of this notification: nothing, unless its
    /// title is to be printed.
    pub fn console(&self) -> (r: String)
        ensures
            r@ == toast_console_text(self.title@, body_view(&self.body), self.print_title),
            !self.print_title ==> r@.len() == 0,
    {
        toast_console(self.title.as_str(), &self.body, self.print_title)
    }
}

} // verus!
