//! The command line of the timer: `<duration>` or `<duration>+<reminder>`.
//!
//! Both numbers are minutes and may have a fraction. Reading a number is not
//! done here: the caller reads the whole argument as a number, and, if the
//! argument splits at a single `+`, each half, and hands over what came of
//! it. [`settle`] then decides what the argument means. It does so for
//! numbers of any type `T`, and hands them back as it got them.

use vstd::prelude::*;
use vstd::string::*;

verus! {

/// What the command line asks for.
#[derive(Clone, Copy, Debug, PartialEq, Eq)]
pub struct Settings<T> {
    /// The time to count down.
    pub duration: T,
    /// The time between reminders after that, if any are wanted.
    pub reminder: Option<T>,
}

/// Why a command line was refused.
#[derive(Clone, Copy, Debug, PartialEq, Eq)]
pub enum UsageError {
    /// There was not exactly one argument.
    ArgumentCount,
    /// The argument is no number and does not split at a single `+`.
    Shape,
    /// The part before the `+` is no number.
    Duration,
    /// The part after the `+` is no number.
    Reminder,
}

/// The status with which the program ends after a usage error.
pub const USAGE_EXIT_CODE: i32 = 1;

/// How often `+` occurs in `s`.
pub open spec fn plus_count(s: Seq<char>) -> nat
    decreases s.len(),
{
    if s.len() == 0 {
        0
    } else if s.last() == '+' {
        plus_count(s.drop_last()) + 1
    } else {
        plus_count(s.drop_last())
    }
}

/// What an argument means, given what reading it as a number gave (`whole`),
/// and, where it splits at a single `+`, what reading each half gave
/// (`parts`). A number as a whole is a duration without reminder, whatever
/// the halves are.
pub open spec fn settled<T>(whole: Option<T>, parts: Option<(Option<T>, Option<T>)>) -> Result<
    Settings<T>,
    UsageError,
> {
    match (whole, parts) {
        (Some(duration), _) => Ok(Settings { duration, reminder: None }),
        (None, None) => Err(UsageError::Shape),
        (None, Some((None, _))) => Err(UsageError::Duration),
        (None, Some((Some(_), None))) => Err(UsageError::Reminder),
        (None, Some((Some(duration), Some(reminder)))) => Ok(
            Settings { duration, reminder: Some(reminder) },
        ),
    }
}

/// The two halves of a text with exactly one `+`: what stands before it and
/// what stands after it.
pub open spec fn halves(s: Seq<char>) -> Option<(Seq<char>, Seq<char>)> {
    if plus_count(s) == 1 {
        let at = s.index_of('+');
        Some((s.subrange(0, at), s.subrange(at + 1, s.len() as int)))
    } else {
        None
    }
}

/// What reading each half gives, for a reader `read`.
pub open spec fn read_halves<T>(
    parts: Option<(Seq<char>, Seq<char>)>,
    read: spec_fn(Seq<char>) -> Option<T>,
) -> Option<(Option<T>, Option<T>)> {
    match parts {
        Some((duration, reminder)) => Some((read(duration), read(reminder))),
        None => None,
    }
}

/// What the argument `arg` means to a caller that reads numbers with `read`.
pub open spec fn parsed<T>(arg: Seq<char>, read: spec_fn(Seq<char>) -> Option<T>) -> Result<
    Settings<T>,
    UsageError,
> {
    settled(read(arg), read_halves(halves(arg), read))
}

/// No `+` occurs in a text in which none is counted, and the other way round.
pub proof fn lemma_plus_count_zero(s: Seq<char>)
    ensures
        plus_count(s) == 0 <==> !s.contains('+'),
    decreases s.len(),
{
    if s.len() > 0 {
        lemma_plus_count_zero(s.drop_last());
        if s.last() == '+' {
            assert(s[s.len() - 1] == '+');
        } else if s.contains('+') {
            let i = choose|i: int| 0 <= i < s.len() && s[i] == '+';
            assert(s.drop_last()[i] == '+');
        } else if s.drop_last().contains('+') {
            let i = choose|i: int| 0 <= i < s.drop_last().len() && s.drop_last()[i] == '+';
            assert(s[i] == '+');
        }
    }
}

/// The count of a text in two pieces is the sum of the counts of the pieces.
pub proof fn lemma_plus_count_concat(a: Seq<char>, b: Seq<char>)
    ensures
        plus_count(a + b) == plus_count(a) + plus_count(b),
    decreases b.len(),
{
    if b.len() == 0 {
        assert(a + b =~= a);
    } else {
        lemma_plus_count_concat(a, b.drop_last());
        assert((a + b).drop_last() =~= a + b.drop_last());
        assert((a + b).last() == b.last());
    }
}

/// Two halves without a `+`, joined by one, make a text with exactly one.
pub proof fn lemma_joined_halves_count_one(a: Seq<char>, b: Seq<char>)
    requires
        !a.contains('+'),
        !b.contains('+'),
    ensures
        plus_count(a + seq!['+'] + b) == 1,
{
    lemma_plus_count_zero(a);
    lemma_plus_count_zero(b);
    lemma_plus_count_concat(a + seq!['+'], b);
    lemma_plus_count_concat(a, seq!['+']);
    assert(seq!['+'].drop_last() =~= Seq::<char>::empty());
    assert(plus_count(Seq::<char>::empty()) == 0);
    assert(seq!['+'].last() == '+');
    assert(plus_count(seq!['+']) == 1);
}

/// A text splits in one way only: two halves without a `+`, joined by one,
/// are the halves of what they make.
pub proof fn lemma_halves_of_joined(a: Seq<char>, b: Seq<char>)
    requires
        !a.contains('+'),
        !b.contains('+'),
    ensures
        halves(a + seq!['+'] + b) == Some((a, b)),
{
    let s = a + seq!['+'] + b;
    lemma_joined_halves_count_one(a, b);
    assert(s[a.len() as int] == '+');
    let at = s.index_of('+');
    assert(0 <= at < s.len() && s[at] == '+');
    if at < a.len() {
        assert(a[at] == '+');
    } else if at > a.len() {
        assert(b[at - a.len() - 1] == '+');
    }
    assert(s.subrange(0, at) =~= a);
    assert(s.subrange(at + 1, s.len() as int) =~= b);
}

/// An argument that reads as a number is a duration of that number, without
/// a reminder.
pub proof fn lemma_number_is_duration<T>(
    arg: Seq<char>,
    read: spec_fn(Seq<char>) -> Option<T>,
    duration: T,
)
    requires
        read(arg) == Some(duration),
    ensures
        parsed(arg, read) == Ok::<Settings<T>, UsageError>(Settings { duration, reminder: None }),
{
}

/// An argument of two numbers joined by a `+`, which is not a number as a
/// whole, is a duration and a reminder of those numbers.
pub proof fn lemma_two_numbers_are_duration_and_reminder<T>(
    first: Seq<char>,
    second: Seq<char>,
    read: spec_fn(Seq<char>) -> Option<T>,
    duration: T,
    reminder: T,
)
    requires
        !first.contains('+'),
        !second.contains('+'),
        read(first + seq!['+'] + second) is None,
        read(first) == Some(duration),
        read(second) == Some(reminder),
    ensures
        parsed(first + seq!['+'] + second, read) == Ok::<Settings<T>, UsageError>(
            Settings { duration, reminder: Some(reminder) },
        ),
{
    lemma_halves_of_joined(first, second);
}

/// An argument that is no number is refused unless it is two numbers joined
/// by a single `+`: for any other number of `+`, and for a half that is no
/// number.
pub proof fn lemma_anything_else_is_refused<T>(arg: Seq<char>, read: spec_fn(Seq<char>) -> Option<T>)
    requires
        read(arg) is None,
    ensures
        plus_count(arg) != 1 ==> parsed(arg, read) == Err::<Settings<T>, UsageError>(
            UsageError::Shape,
        ),
        forall|first: Seq<char>, second: Seq<char>|
            #![trigger first + seq!['+'] + second]
            arg == first + seq!['+'] + second && !first.contains('+') && !second.contains('+')
                && (read(first) is None || read(second) is None) ==> parsed(arg, read) is Err,
        parsed(arg, read) is Ok ==> plus_count(arg) == 1,
{
    assert forall|first: Seq<char>, second: Seq<char>|
        #![trigger first + seq!['+'] + second]
        arg == first + seq!['+'] + second && !first.contains('+') && !second.contains('+') && (read(
            first,
        ) is None || read(second) is None) implies parsed(arg, read) is Err by {
        lemma_halves_of_joined(first, second);
    }
}

/// The one argument of a command line, which starts with the program's name.
pub fn single_argument(args: &Vec<String>) -> (r: Result<&str, UsageError>)
    ensures
        args@.len() == 2 ==> (r matches Ok(arg) && arg@ == args@[1]@),
        args@.len() != 2 ==> r == Err::<&str, UsageError>(UsageError::ArgumentCount),
{
    if args.len() != 2 {
        Err(UsageError::ArgumentCount)
    } else {
        Ok(args[1].as_str())
    }
}

/// Splits an argument at its `+`, if it has exactly one.
pub fn split_reminder<'a>(arg: &'a str) -> (r: Option<(&'a str, &'a str)>)
    ensures
        r is Some <==> plus_count(arg@) == 1,
        r matches Some((duration, reminder)) ==> {
            &&& halves(arg@) == Some((duration@, reminder@))
            &&& duration@ + seq!['+'] + reminder@ == arg@
            &&& !duration@.contains('+')
            &&& !reminder@.contains('+')
        },
{
    let n: usize = arg.unicode_len();
    let mut i: usize = 0;
    let mut count: usize = 0;
    let mut at: usize = 0;
    assert(arg@.subrange(0, 0) =~= Seq::<char>::empty());
    while i < n
        invariant
            i <= n,
            n == arg@.len(),
            count <= i,
            count == plus_count(arg@.subrange(0, i as int)),
            count >= 1 ==> at < i && arg@[at as int] == '+',
            count == 1 ==> plus_count(arg@.subrange(0, at as int)) == 0,
            count == 1 ==> plus_count(arg@.subrange(at + 1, i as int)) == 0,
        decreases n - i,
    {
        let c: char = arg.get_char(i);
        proof {
            assert(arg@.subrange(0, i + 1).drop_last() =~= arg@.subrange(0, i as int));
            if count == 1 {
                assert(arg@.subrange(at + 1, i + 1).drop_last() =~= arg@.subrange(
                    at + 1,
                    i as int,
                ));
            }
        }
        if c == '+' {
            if count == 0 {
                at = i;
                assert(arg@.subrange(at + 1, i + 1) =~= Seq::<char>::empty());
            }
            count = count + 1;
        }
        i = i + 1;
    }
    assert(arg@.subrange(0, n as int) =~= arg@);
    if count == 1 {
        let duration: &'a str = arg.substring_char(0, at);
        let reminder: &'a str = arg.substring_char(at + 1, n);
        proof {
            lemma_plus_count_zero(duration@);
            lemma_plus_count_zero(reminder@);
            assert(duration@ + seq!['+'] + reminder@ =~= arg@);
            lemma_halves_of_joined(duration@, reminder@);
        }
        Some((duration, reminder))
    } else {
        None
    }
}

/// Decides what an argument means, given what reading it as a number gave
/// (`whole`), and, where it splits at a single `+`, what reading each half
/// gave (`parts`).
pub fn settle<T>(whole: Option<T>, parts: Option<(Option<T>, Option<T>)>) -> (r: Result<
    Settings<T>,
    UsageError,
>)
    ensures
        r == settled(whole, parts),
        whole matches Some(duration) ==> r == Ok::<Settings<T>, UsageError>(
            Settings { duration, reminder: None },
        ),
        whole is None ==> (r is Ok <==> parts matches Some((Some(_), Some(_)))),
{
    match whole {
        Some(duration) => Ok(Settings { duration, reminder: None }),
        None => match parts {
            None => Err(UsageError::Shape),
            Some((None, _)) => Err(UsageError::Duration),
            Some((Some(_), None)) => Err(UsageError::Reminder),
            Some((Some(duration), Some(reminder))) => Ok(
                Settings { duration, reminder: Some(reminder) },
            ),
        },
    }
}

/// The line that says how the program is called.
pub open spec fn usage_text() -> Seq<char> {
    "Usage: timer.exe <duration>    or    timer.exe <duration>+<reminder_duration>"@
}

/// The line that says how the program is called.
pub fn usage() -> (r: String)
    ensures
        r@ == usage_text(),
{
    String::from_str("Usage: timer.exe <duration>    or    timer.exe <duration>+<reminder_duration>")
}

impl UsageError {
    /// The line that says what was wrong.
    pub open spec fn message_text(self) -> Seq<char> {
        match self {
            UsageError::ArgumentCount => "Invalid number of arguments."@,
            UsageError::Shape => "Invalid duration/reminder argument."@,
            UsageError::Duration => "Failed to parse duration."@,
            UsageError::Reminder => "Failed to parse reminder duration."@,
        }
    }

    /// What is reported for this error: what was wrong, then how the program
    /// is called, a line each.
    pub open spec fn report_text(self) -> Seq<char> {
        self.message_text() + seq!['\n'] + usage_text() + seq!['\n']
    }

    /// The line that says what was wrong.
    pub fn message(&self) -> (r: String)
        ensures
            r@ == self.message_text(),
    {
        match self {
            UsageError::ArgumentCount => String::from_str("Invalid number of arguments."),
            UsageError::Shape => String::from_str("Invalid duration/reminder argument."),
            UsageError::Duration => String::from_str("Failed to parse duration."),
            UsageError::Reminder => String::from_str("Failed to parse reminder duration."),
        }
    }

    /// What is reported for this error.
    pub fn report(&self) -> (r: String)
        ensures
            r@ == self.report_text(),
    {
        proof {
            reveal_strlit("\n");
        }
        let mut r: String = self.message();
        r.append("\n");
        r.append(usage().as_str());
        r.append("\n");
        assert(r@ =~= self.report_text());
        r
    }
}

} // verus!
