//! The desktop notification, built with `winrt_notification`.
//!
//! A toast is opaque to the proofs: it is made, filled in and handed on, and
//! what it holds is never read. Each step of the builder has a name here, so
//! that a contract can say which steps a toast has gone through, and with
//! which arguments. Showing it is left to the program. What is decided here
//! is what goes into it: the title, the body as the first line of text if
//! there is a body, a short stay on the screen, and the sound of an incoming
//! short message.

use crate::notice::{body_view, Notification};
use vstd::prelude::*;

verus! {

/// `winrt_notification::Toast`, the builder of a notification.
#[verifier::external_type_specification]
#[verifier::external_body]
pub struct ExToast(winrt_notification::Toast);

/// How long a toast stays on the screen.
#[derive(Clone, Copy, Debug, PartialEq, Eq, Structural)]
pub enum Stay {
    Short,
    Long,
}

/// The sound that a toast is shown with.
#[derive(Clone, Copy, Debug, PartialEq, Eq, Structural)]
pub enum Cue {
    Default,
    IM,
    Mail,
    Reminder,
    SMS,
}

/// What `Toast::new` returns for the application `app_id`.
pub uninterp spec fn toast_new(app_id: Seq<char>) -> winrt_notification::Toast;

/// What `Toast::title` makes of `toast` and the title `content`.
pub uninterp spec fn toast_title(
    toast: winrt_notification::Toast,
    content: Seq<char>,
) -> winrt_notification::Toast;

/// What `Toast::text1` makes of `toast` and the line `content`.
pub uninterp spec fn toast_text1(
    toast: winrt_notification::Toast,
    content: Seq<char>,
) -> winrt_notification::Toast;

/// What `Toast::duration` makes of `toast` and `stay`.
pub uninterp spec fn toast_duration(
    toast: winrt_notification::Toast,
    stay: Stay,
) -> winrt_notification::Toast;

/// What `Toast::sound` makes of `toast` and `cue`.
pub uninterp spec fn toast_sound(
    toast: winrt_notification::Toast,
    cue: Option<Cue>,
) -> winrt_notification::Toast;

/// The toast for a notification with the title `title` and the body `body`,
/// sent in the name of the application `app_id`: the title, the body as the
/// first line of text if there is one, a short stay, the sound of a short
/// message.
pub open spec fn toast_of(
    app_id: Seq<char>,
    title: Seq<char>,
    body: Option<Seq<char>>,
) -> winrt_notification::Toast {
    let titled = toast_title(toast_new(app_id), title);
    let filled = match body {
        Some(content) => toast_text1(titled, content),
        None => titled,
    };
    toast_sound(toast_duration(filled, Stay::Short), Some(Cue::SMS))
}

/// `Toast::new` makes an empty toast for the application `app_id`. What it
/// returns depends on `app_id` alone.
pub assume_specification[ winrt_notification::Toast::new ](
    app_id: &str,
) -> (r: winrt_notification::Toast)
    ensures
        r == toast_new(app_id@),
;

/// `Toast::title` sets the title of a toast. What it returns depends on the
/// toast and the title alone.
pub assume_specification[ winrt_notification::Toast::title ](
    toast: winrt_notification::Toast,
    content: &str,
) -> (r: winrt_notification::Toast)
    ensures
        r == toast_title(toast, content@),
;

/// `Toast::text1` sets the first line of text below the title. What it
/// returns depends on the toast and the line alone.
pub assume_specification[ winrt_notification::Toast::text1 ](
    toast: winrt_notification::Toast,
    content: &str,
) -> (r: winrt_notification::Toast)
    ensures
        r == toast_text1(toast, content@),
;

/// `Toast::duration` sets how long a toast stays on the screen. What it
/// returns depends on the toast and the stay alone.
#[verifier::external_body]
fn with_stay(toast: winrt_notification::Toast, stay: Stay) -> (r: winrt_notification::Toast)
    ensures
        r == toast_duration(toast, stay),
{
    toast.duration(
        match stay {
            Stay::Short => winrt_notification::Duration::Short,
            Stay::Long => winrt_notification::Duration::Long,
        },
    )
}

/// `Toast::sound` sets the sound of a toast, or silences it. What it
/// returns depends on the toast and the sound alone.
#[verifier::external_body]
fn with_cue(toast: winrt_notification::Toast, cue: Option<Cue>) -> (r: winrt_notification::Toast)
    ensures
        r == toast_sound(toast, cue),
{
    toast.sound(
        match cue {
            None => None,
            Some(Cue::Default) => Some(winrt_notification::Sound::Default),
            Some(Cue::IM) => Some(winrt_notification::Sound::IM),
            Some(Cue::Mail) => Some(winrt_notification::Sound::Mail),
            Some(Cue::Reminder) => Some(winrt_notification::Sound::Reminder),
            Some(Cue::SMS) => Some(winrt_notification::Sound::SMS),
        },
    )
}

impl Notification {
    /// The toast for this notification, sent in the name of the application
    /// `app_id`.
    pub fn toast(&self, app_id: &str) -> (r: winrt_notification::Toast)
        ensures
            r == toast_of(app_id@, self.title@, body_view(&self.body)),
    {
        let titled: winrt_notification::Toast = winrt_notification::Toast::new(app_id).title(
            self.title.as_str(),
        );
        let filled: winrt_notification::Toast = match &self.body {
            Some(content) => titled.text1(content.as_str()),
            None => titled,
        };
        with_cue(with_stay(filled, Stay::Short), Some(Cue::SMS))
    }
}

} // verus!
