//! Where a message goes: the path under which its report is appended in the
//! stored aggregate, and the directory and file of the day's audit log.
//!
//! Both are derived from the message alone, afresh for each message.

use crate::message::{plain_text, text_view, BaseStationMessage, MessageView};
use crate::text::{
    joined, lemma_joined_pieces_replaces, pieces, replaced, split_on,
};
use vstd::prelude::*;

verus! {

/// The directory under which the audit logs of all days are kept.
pub const LOG_ROOT: &'static str = "/app/logs";

/// The ending of an audit log's file name.
pub const LOG_SUFFIX: &'static str = ".log";

/// Year, month and day of a date written `YYYY/MM/DD`: the three pieces that
/// the date falls into at its slashes. A date that falls into fewer or more
/// pieces has none. The pieces are taken as they stand; nothing asks that
/// they be numbers or name a day of the calendar.
pub open spec fn date_parts(date: Seq<char>) -> Option<(Seq<char>, Seq<char>, Seq<char>)> {
    let parts = pieces(date, '/');
    if parts.len() == 3 {
        Some((parts[0], parts[1], parts[2]))
    } else {
        None
    }
}

/// The dotted path made of a year, a month, a day and an aircraft address.
pub open spec fn dotted_path(
    year: Seq<char>,
    month: Seq<char>,
    day: Seq<char>,
    hex_ident: Seq<char>,
) -> Seq<char> {
    year + seq!['.'] + month + seq!['.'] + day + seq!['.'] + hex_ident
}

/// The path under which a message's report is stored: year, month and day of
/// its generated date and its aircraft address, the empty text standing for
/// an absent address. A message whose generated date has no three parts has
/// no path.
pub open spec fn hierarchical_path(message: MessageView) -> Option<Seq<char>> {
    match date_parts(message.generated_date) {
        Some((year, month, day)) => Some(
            dotted_path(year, month, day, plain_text(message.hex_ident)),
        ),
        None => None,
    }
}

/// Where the audit log of a day lies.
#[derive(Debug, Clone, PartialEq, Eq)]
pub struct LogLocation {
    /// The directory of the day, to be made if it is not there.
    pub directory: String,
    /// The name of the day's file within the directory.
    pub file_name: String,
    /// Directory and file name, joined by a slash.
    pub path: String,
}

/// A log location with each text as its sequence of characters.
pub struct LogLocationView {
    pub directory: Seq<char>,
    pub file_name: Seq<char>,
    pub path: Seq<char>,
}

impl View for LogLocation {
    type V = LogLocationView;

    open spec fn view(&self) -> LogLocationView {
        LogLocationView {
            directory: self.directory@,
            file_name: self.file_name@,
            path: self.path@,
        }
    }
}

/// The directory of a day's audit log: the date under the log root.
pub open spec fn log_directory(date: Seq<char>) -> Seq<char> {
    LOG_ROOT@ + seq!['/'] + date
}

/// The file name of a day's audit log: the date with a hyphen for each
/// slash, then the suffix.
pub open spec fn log_file_name(date: Seq<char>) -> Seq<char> {
    replaced(date, '/', '-') + LOG_SUFFIX@
}

/// Where the audit log of the day `date` lies.
pub open spec fn log_location(date: Seq<char>) -> LogLocationView {
    LogLocationView {
        directory: log_directory(date),
        file_name: log_file_name(date),
        path: log_directory(date) + seq!['/'] + log_file_name(date),
    }
}

/// Two messages with the same year, month, day and aircraft address are
/// stored under the same path, whatever else they hold; an absent address
/// counts as the empty one.
pub proof fn lemma_path_depends_on_date_and_address(a: MessageView, b: MessageView)
    requires
        date_parts(a.generated_date) == date_parts(b.generated_date),
        plain_text(a.hex_ident) == plain_text(b.hex_ident),
    ensures
        hierarchical_path(a) == hierarchical_path(b),
{
}

/// A message has a path exactly when its generated date has three parts.
pub proof fn lemma_path_exists_iff_date_has_three_parts(message: MessageView)
    ensures
        hierarchical_path(message) is Some <==> pieces(message.generated_date, '/').len() == 3,
{
}

/// Joining with one more part at the end: the join so far, the separator,
/// then the part; or the part alone where it is the first.
pub proof fn lemma_joined_push(parts: Seq<Seq<char>>, last: Seq<char>, sep: char)
    ensures
        joined(parts.push(last), sep) == if parts.len() == 0 {
            last
        } else {
            joined(parts, sep) + seq![sep] + last
        },
    decreases parts.len(),
{
    let all = parts.push(last);
    if parts.len() == 0 {
        assert(all[0] == last);
    } else {
        let rest = parts.drop_first();
        lemma_joined_push(rest, last, sep);
        assert(all.drop_first() =~= rest.push(last));
        assert(all[0] == parts[0]);
        if parts.len() == 1 {
            assert(joined(rest.push(last), sep) == last);
            assert(joined(all, sep) =~= parts[0] + seq![sep] + last);
        } else {
            assert(joined(all, sep) =~= parts[0] + seq![sep] + (joined(rest, sep) + seq![sep]
                + last));
            assert(joined(parts, sep) + seq![sep] + last =~= parts[0] + seq![sep] + (joined(
                rest,
                sep,
            ) + seq![sep] + last));
        }
    }
}

/// The path under which the report of `message` is stored, if its generated
/// date has three parts.
pub fn hierarchical_key(message: &BaseStationMessage) -> (out: Option<String>)
    ensures
        text_view(out) == hierarchical_path(message@),
{
    let parts = split_on(message.generated_date.as_str(), '/');
    if parts.len() != 3 {
        return None;
    }
    proof {
        reveal_strlit(".");
        assert("."@ =~= seq!['.']);
        assert(parts.deep_view()[0] == parts[0]@);
        assert(parts.deep_view()[1] == parts[1]@);
        assert(parts.deep_view()[2] == parts[2]@);
    }
    let mut key = parts[0].to_owned();
    key.append(".");
    key.append(parts[1]);
    key.append(".");
    key.append(parts[2]);
    key.append(".");
    match &message.hex_ident {
        Some(hex_ident) => {
            key.append(hex_ident.as_str());
        },
        None => {
            assert(key@ + Seq::<char>::empty() =~= key@);
        },
    }
    Some(key)
}

/// The text `date` with a hyphen for each slash.
fn hyphenated(date: &str) -> (out: String)
    ensures
        out@ == replaced(date@, '/', '-'),
{
    let parts = split_on(date, '/');
    let mut out = String::new();
    let mut i: usize = 0;
    proof {
        reveal_strlit("-");
        assert("-"@ =~= seq!['-']);
        crate::text::lemma_pieces_free_of_sep(date@, '/');
        assert(parts.deep_view().take(0) =~= Seq::<Seq<char>>::empty());
    }
    while i < parts.len()
        invariant
            i <= parts.len(),
            parts.len() >= 1,
            parts.deep_view() == pieces(date@, '/'),
            "-"@ == seq!['-'],
            out@ == joined(parts.deep_view().take(i as int), '-'),
        decreases parts.len() - i,
    {
        proof {
            let so_far = parts.deep_view().take(i as int);
            lemma_joined_push(so_far, parts[i as int]@, '-');
            assert(so_far.push(parts[i as int]@) =~= parts.deep_view().take(i + 1));
        }
        if i > 0 {
            out.append("-");
        }
        out.append(parts[i]);
        proof {
            if i == 0 {
                assert(Seq::<char>::empty() + parts[i as int]@ =~= parts[i as int]@);
            }
        }
        i += 1;
    }
    proof {
        assert(parts.deep_view().take(parts.len() as int) =~= parts.deep_view());
        lemma_joined_pieces_replaces(date@, '/', '-');
    }
    out
}

/// Where the audit log of the day `date` lies.
pub fn audit_log_location(date: &str) -> (out: LogLocation)
    ensures
        out@ == log_location(date@),
{
    proof {
        reveal_strlit("/");
        assert("/"@ =~= seq!['/']);
    }
    let mut directory = LOG_ROOT.to_owned();
    directory.append("/");
    directory.append(date);
    let mut file_name = hyphenated(date);
    file_name.append(LOG_SUFFIX);
    let mut path = directory.clone();
    path.append("/");
    path.append(file_name.as_str());
    LogLocation { directory, file_name, path }
}

} // verus!
