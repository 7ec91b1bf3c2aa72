//! Log files: how they are named, which one is shown and which ones are kept.

use vstd::prelude::*;
use vstd::string::*;

use crate::paths::join_path;
use crate::paths::joined;
use crate::paths::path_stem;
use crate::paths::script_stem;
use crate::paths::stem_or_empty;
use crate::process_manager::ProcessManager;
use crate::scan::at_most;
use crate::scan::lemma_text_le_antisymmetric;
use crate::scan::lemma_text_le_numeral;
use crate::scan::lemma_text_le_parts;
use crate::scan::lemma_text_le_reflexive;
use crate::scan::lemma_text_le_total;
use crate::scan::lemma_text_le_transitive;
use crate::scan::numeral;
use crate::scan::text_le;
use crate::scan::views;
use crate::text::chars_of;
use crate::text::same_text;
use crate::text::string_of;

verus! {

/// How many log files of a script are kept.
pub const LOG_RETENTION: usize = 20;

/// A decimal digit.
pub open spec fn is_digit(c: char) -> bool {
    '0' <= c <= '9'
}

/// The two digits of `t` at `at` write a number from `low` to `high`.
pub open spec fn two_digits(t: Seq<char>, at: int, low: nat, high: nat) -> bool {
    numeral(t.subrange(at, at + 2), 10) matches Some(v) && low <= v <= high
}

/// A date and a time of day, `YYYYMMDD_HHMMSS`.
pub open spec fn is_stamp(t: Seq<char>) -> bool {
    &&& t.len() == 15
    &&& t[8] == '_'
    &&& forall|i: int| 0 <= i < 15 && i != 8 ==> is_digit(#[trigger] t[i])
}

/// What the clock can give as `%Y%m%d_%H%M%S`: a stamp with a month, a day, an hour, a minute and
/// a second. A year beyond four digits or before the year 0 has a sign in front.
pub open spec fn is_clock_stamp(t: Seq<char>) -> bool {
    let extra = t.len() - 15;
    let stamp = t.skip(extra);
    &&& extra >= 0
    &&& extra > 0 ==> t[0] == '+' || t[0] == '-'
    &&& forall|i: int| 1 <= i < extra ==> is_digit(#[trigger] t[i])
    &&& is_stamp(stamp)
    &&& two_digits(stamp, 4, 1, 12)
    &&& two_digits(stamp, 6, 1, 31)
    &&& two_digits(stamp, 9, 0, 23)
    &&& two_digits(stamp, 11, 0, 59)
    &&& two_digits(stamp, 13, 0, 60)
}

/// `chrono::Local::now`, formatted: the local date and time. It is another one with every call,
/// so nothing but its shape is claimed.
#[verifier::external_body]
pub(crate) fn local_time(format: &str) -> (stamp: String)
    requires
        format@ == "%Y%m%d_%H%M%S"@,
    ensures
        is_clock_stamp(stamp@),
{
    chrono::Local::now().format(format).to_string()
}

/// The name of a script's log file: `{stem}_{stamp}.log`.
pub open spec fn log_name(stem: Seq<char>, stamp: Seq<char>) -> Seq<char> {
    stem.push('_') + stamp + ".log"@
}

/// The part of a name that stands where the log file of a script has its stamp.
pub open spec fn stamp_part(name: Seq<char>, stem: Seq<char>) -> Seq<char> {
    let from = stem.len() as int + 1;
    name.subrange(from, from + 15)
}

/// `name` is the name of a log file of the script: `{stem}_{YYYYMMDD_HHMMSS}.log`.
pub open spec fn is_log_of(name: Seq<char>, stem: Seq<char>) -> bool {
    &&& name.len() == stem.len() + 20
    &&& is_stamp(stamp_part(name, stem))
    &&& name == log_name(stem, stamp_part(name, stem))
}

/// The name of a script's log file.
pub fn log_file_name(stem: &str, stamp: &str) -> (name: String)
    ensures
        name@ == log_name(stem@, stamp@),
{
    let mut name = stem.to_owned();
    name.push('_');
    name.append(stamp);
    name.append(".log");
    name
}

fn is_stamp_text(t: &Vec<char>) -> (yes: bool)
    ensures
        yes == is_stamp(t@),
{
    if t.len() != 15 || t[8] != '_' {
        return false;
    }
    let mut i: usize = 0;
    while i < 15
        invariant
            i <= 15,
            t@.len() == 15,
            forall|j: int| 0 <= j < i && j != 8 ==> is_digit(#[trigger] t@[j]),
        decreases 15 - i,
    {
        if i != 8 && !('0' <= t[i] && t[i] <= '9') {
            proof {
                assert(!is_digit(t@[i as int]));
            }
            return false;
        }
        i = i + 1;
    }
    true
}

/// Whether `name` is the name of a log file of the script.
pub fn is_log_file(name: &str, stem: &str) -> (yes: bool)
    ensures
        yes == is_log_of(name@, stem@),
{
    let chars = chars_of(name);
    let stem_len: usize = chars_of(stem).len();
    if chars.len() < 20 || chars.len() - 20 != stem_len {
        return false;
    }
    let stamp = string_of(&chars, stem_len + 1, stem_len + 16);
    if !is_stamp_text(&chars_of(stamp.as_str())) {
        return false;
    }
    same_text(name, log_file_name(stem, stamp.as_str()).as_str())
}

/// `name` is the most recent of the script's log files among `names`. Stamps have a fixed width,
/// so the order of the names is the order of their times.
pub open spec fn is_latest(names: Seq<Seq<char>>, stem: Seq<char>, name: Seq<char>) -> bool {
    &&& names.contains(name)
    &&& is_log_of(name, stem)
    &&& forall|i: int|
        0 <= i < names.len() && is_log_of(#[trigger] names[i], stem) ==> text_le(names[i], name)
}

/// `names` holds no log file of the script.
pub open spec fn no_log(names: Seq<Seq<char>>, stem: Seq<char>) -> bool {
    forall|i: int| 0 <= i < names.len() ==> !is_log_of(#[trigger] names[i], stem)
}

/// The most recent of the script's log files among `names`.
pub fn latest_log(names: &Vec<String>, stem: &str) -> (name: Option<String>)
    ensures
        match name {
            Some(n) => is_latest(views(names@), stem@, n@),
            None => no_log(views(names@), stem@),
        },
{
    let ghost all = views(names@);
    let mut best: Option<usize> = None;
    let mut i: usize = 0;
    while i < names.len()
        invariant
            i <= names@.len(),
            all == views(names@),
            match best {
                Some(b) => b < i && is_latest(all.take(i as int), stem@, all[b as int]),
                None => no_log(all.take(i as int), stem@),
            },
        decreases names@.len() - i,
    {
        let name = names[i].as_str();
        let ghost before = all.take(i as int);
        let ghost after = all.take(i + 1);
        proof {
            assert(after =~= before.push(name@));
            lemma_text_le_reflexive(name@);
            lemma_latest_grows(before, stem@, name@);
        }
        if is_log_file(name, stem) {
            match best {
                Some(b) => {
                    let ghost old_best = all[b as int];
                    if at_most(names[b].as_str(), name) {
                        best = Some(i);
                    } else {
                        proof {
                            lemma_text_le_total(old_best, name@);
                        }
                    }
                },
                None => {
                    best = Some(i);
                    proof {
                        assert(after[i as int] == name@);
                    }
                },
            }
        }
        i = i + 1;
    }
    proof {
        assert(all.take(i as int) =~= all);
    }
    match best {
        Some(b) => Some(names[b].clone()),
        None => None,
    }
}

/// How the most recent log file changes when one more name is looked at.
proof fn lemma_latest_grows(names: Seq<Seq<char>>, stem: Seq<char>, next: Seq<char>)
    ensures
        forall|best: Seq<char>|
            is_latest(names, stem, best) && is_log_of(next, stem) && #[trigger] text_le(best, next)
                ==> is_latest(names.push(next), stem, next),
        forall|best: Seq<char>| #[trigger]
            is_latest(names, stem, best) && (is_log_of(next, stem) ==> text_le(next, best))
                ==> is_latest(names.push(next), stem, best),
        no_log(names, stem) && is_log_of(next, stem) ==> is_latest(names.push(next), stem, next),
        no_log(names, stem) && !is_log_of(next, stem) ==> no_log(names.push(next), stem),
{
    let grown = names.push(next);
    lemma_text_le_reflexive(next);
    assert(grown[names.len() as int] == next);
    assert forall|best: Seq<char>|
        is_latest(names, stem, best) && is_log_of(next, stem) && #[trigger] text_le(
            best,
            next,
        ) implies is_latest(grown, stem, next) by {
        assert forall|i: int|
            0 <= i < grown.len() && is_log_of(#[trigger] grown[i], stem) implies text_le(
            grown[i],
            next,
        ) by {
            if i < names.len() {
                assert(grown[i] == names[i]);
                lemma_text_le_transitive(names[i], best, next);
            }
        }
    }
    assert forall|best: Seq<char>| #[trigger]
        is_latest(names, stem, best) && (is_log_of(next, stem) ==> text_le(
            next,
            best,
        )) implies is_latest(grown, stem, best) by {
        let k = choose|k: int| 0 <= k < names.len() && names[k] == best;
        assert(grown[k] == best);
    }
}

/// The path of a script's log file with the given stamp.
pub fn log_file_path(log_dir: &str, stem: &str, stamp: &str) -> (path: String)
    ensures
        path@ == joined(log_dir@, log_name(stem@, stamp@)),
{
    join_path(log_dir, log_file_name(stem, stamp).as_str())
}

/// A path in `log_dir` for a log file of the script that is made now.
pub open spec fn is_new_log_path(path: Seq<char>, log_dir: Seq<char>, stem: Seq<char>) -> bool {
    exists|stamp: Seq<char>| #[trigger]
        is_clock_stamp(stamp) && path == joined(log_dir, log_name(stem, stamp))
}

/// The path of the log file that a script started now writes to.
pub fn new_log_file(script: &str, log_dir: &str) -> (path: String)
    ensures
        is_new_log_path(path@, log_dir@, stem_or_empty(path_stem(script@))),
{
    let stamp = local_time("%Y%m%d_%H%M%S");
    log_file_path(log_dir, script_stem(script).as_str(), stamp.as_str())
}

/// The log file to show for a script: the most recent one, or a new one where there is none.
/// `names` are the names of the files in `log_dir`, where they could be read.
pub fn resolve_log_file(script: &str, log_dir: &str, names: Option<&Vec<String>>) -> (path: String)
    ensures
        ({
            let stem = stem_or_empty(path_stem(script@));
            match names {
                Some(list) => {
                    &&& forall|n: Seq<char>| #[trigger]
                        is_latest(views(list@), stem, n) ==> path@ == joined(log_dir@, n)
                    &&& no_log(views(list@), stem) ==> is_new_log_path(path@, log_dir@, stem)
                },
                None => is_new_log_path(path@, log_dir@, stem),
            }
        }),
{
    let stem = script_stem(script);
    match names {
        Some(list) => {
            match latest_log(list, stem.as_str()) {
                Some(name) => {
                    proof {
                        let all = views(list@);
                        assert forall|n: Seq<char>| #[trigger]
                            is_latest(all, stem@, n) implies n == name@ by {
                            lemma_latest_unique(all, stem@, n, name@);
                        }
                        let k = choose|k: int| 0 <= k < all.len() && all[k] == name@;
                        assert(is_log_of(all[k], stem@));
                    }
                    return join_path(log_dir, name.as_str());
                },
                None => {
                    proof {
                        let all = views(list@);
                        assert forall|n: Seq<char>| !(#[trigger] is_latest(all, stem@, n)) by {
                            if is_latest(all, stem@, n) {
                                let k = choose|k: int| 0 <= k < all.len() && all[k] == n;
                                assert(!is_log_of(all[k], stem@));
                            }
                        }
                    }
                },
            }
        },
        None => {},
    }
    new_log_file(script, log_dir)
}

/// There is one most recent log file at most.
proof fn lemma_latest_unique(
    names: Seq<Seq<char>>,
    stem: Seq<char>,
    one: Seq<char>,
    other: Seq<char>,
)
    requires
        is_latest(names, stem, one),
        is_latest(names, stem, other),
    ensures
        one == other,
{
    let i = choose|i: int| 0 <= i < names.len() && names[i] == one;
    let j = choose|j: int| 0 <= j < names.len() && names[j] == other;
    assert(is_log_of(names[i], stem) && is_log_of(names[j], stem));
    lemma_text_le_antisymmetric(one, other);
}

/// `a` stands before `b` in the order of characters.
pub open spec fn text_lt(a: Seq<char>, b: Seq<char>) -> bool {
    text_le(a, b) && a != b
}

/// The names of the script's log files that are newer than `name`.
pub open spec fn newer_than(name: Seq<char>, stem: Seq<char>) -> spec_fn(Seq<char>) -> bool {
    |n: Seq<char>| is_log_of(n, stem) && text_lt(name, n)
}

/// How many of the script's log files among `names` are newer than `name`.
pub open spec fn newer_count(names: Seq<Seq<char>>, stem: Seq<char>, name: Seq<char>) -> nat {
    names.filter(newer_than(name, stem)).len()
}

/// The log files of the script that newer ones crowd out.
pub open spec fn outdated(names: Seq<Seq<char>>, stem: Seq<char>) -> spec_fn(Seq<char>) -> bool {
    |n: Seq<char>| is_log_of(n, stem) && newer_count(names, stem, n) >= LOG_RETENTION
}

/// The log files of the script that stay.
pub open spec fn retained(names: Seq<Seq<char>>, stem: Seq<char>) -> spec_fn(Seq<char>) -> bool {
    |n: Seq<char>| is_log_of(n, stem) && newer_count(names, stem, n) < LOG_RETENTION
}

/// One more element, and what a filter keeps of it.
proof fn lemma_filter_take(
    s: Seq<Seq<char>>,
    pred: spec_fn(Seq<char>) -> bool,
    i: int,
)
    requires
        0 <= i < s.len(),
    ensures
        s.take(i + 1).filter(pred) == if pred(s[i]) {
            s.take(i).filter(pred).push(s[i])
        } else {
            s.take(i).filter(pred)
        },
{
    reveal(Seq::filter);
    assert(s.take(i + 1).drop_last() =~= s.take(i));
}

fn count_newer(names: &Vec<String>, stem: &str, name: &str) -> (n: usize)
    ensures
        n == newer_count(views(names@), stem@, name@),
{
    let ghost all = views(names@);
    let ghost pred = newer_than(name@, stem@);
    let mut n: usize = 0;
    let mut i: usize = 0;
    proof {
        reveal(Seq::filter);
    }
    while i < names.len()
        invariant
            n <= i <= names@.len(),
            all == views(names@),
            pred == newer_than(name@, stem@),
            n == all.take(i as int).filter(pred).len(),
        decreases names@.len() - i,
    {
        proof {
            lemma_filter_take(all, pred, i as int);
        }
        let other = names[i].as_str();
        if is_log_file(other, stem) && at_most(name, other) && !same_text(name, other) {
            n = n + 1;
        }
        i = i + 1;
    }
    proof {
        assert(all.take(i as int) =~= all);
    }
    n
}

impl ProcessManager {
    /// The log files of the script that are to be deleted, out of the names of the files in the
    /// log directory: those beyond the most recent ones that are kept.
    pub fn rotate_logs(script: &str, names: &Vec<String>) -> (deleted: Vec<String>)
        ensures
            ({
                let all = views(names@);
                let stem = stem_or_empty(path_stem(script@));
                views(deleted@) == all.filter(outdated(all, stem))
            }),
    {
        outdated_logs(script_stem(script).as_str(), names)
    }
}

/// The log files with the given stem that are to be deleted, in the order in which they are
/// listed.
pub fn outdated_logs(stem: &str, names: &Vec<String>) -> (deleted: Vec<String>)
    ensures
        views(deleted@) == views(names@).filter(outdated(views(names@), stem@)),
{
    let ghost all = views(names@);
    let ghost pred = outdated(all, stem@);
    let mut deleted: Vec<String> = Vec::new();
    let mut i: usize = 0;
    proof {
        reveal(Seq::filter);
        assert(views(deleted@) =~= all.take(0).filter(pred));
    }
    while i < names.len()
        invariant
            i <= names@.len(),
            all == views(names@),
            pred == outdated(all, stem@),
            views(deleted@) == all.take(i as int).filter(pred),
        decreases names@.len() - i,
    {
        let ghost before = views(deleted@);
        proof {
            lemma_filter_take(all, pred, i as int);
        }
        let name = names[i].as_str();
        if is_log_file(name, stem) && count_newer(names, stem, name) >= LOG_RETENTION {
            deleted.push(names[i].clone());
            proof {
                assert(views(deleted@) =~= before.push(all[i as int]));
            }
        }
        i = i + 1;
    }
    proof {
        assert(all.take(i as int) =~= all);
    }
    deleted
}

/// A filter that lets more through keeps no less.
proof fn lemma_filter_monotone(
    s: Seq<Seq<char>>,
    few: spec_fn(Seq<char>) -> bool,
    many: spec_fn(Seq<char>) -> bool,
)
    requires
        forall|i: int| 0 <= i < s.len() && few(#[trigger] s[i]) ==> many(s[i]),
    ensures
        s.filter(few).len() <= s.filter(many).len(),
    decreases s.len(),
{
    reveal(Seq::filter);
    if s.len() > 0 {
        assert forall|i: int| 0 <= i < s.drop_last().len() && few(
            #[trigger] s.drop_last()[i],
        ) implies many(s.drop_last()[i]) by {
            assert(s.drop_last()[i] == s[i]);
        }
        lemma_filter_monotone(s.drop_last(), few, many);
        assert(few(s[s.len() - 1]) ==> many(s[s.len() - 1]));
    }
}

/// One element of a list without repetitions takes one place at most.
proof fn lemma_filter_all_but_one(
    s: Seq<Seq<char>>,
    pred: spec_fn(Seq<char>) -> bool,
    others: spec_fn(Seq<char>) -> bool,
    one: Seq<char>,
)
    requires
        s.no_duplicates(),
        forall|n: Seq<char>| #[trigger] others(n) == (pred(n) && n != one),
    ensures
        s.filter(pred).len() <= s.filter(others).len() + 1,
        !s.contains(one) ==> s.filter(pred).len() == s.filter(others).len(),
    decreases s.len(),
{
    reveal(Seq::filter);
    if s.len() > 0 {
        let front = s.drop_last();
        assert forall|i: int, j: int| 0 <= i < j < front.len() implies front[i] != front[j] by {
            assert(front[i] == s[i] && front[j] == s[j]);
        }
        lemma_filter_all_but_one(front, pred, others, one);
        if s.last() == one {
            assert(!front.contains(one)) by {
                if front.contains(one) {
                    let k = choose|k: int| 0 <= k < front.len() && front[k] == one;
                    assert(s[k] == s[s.len() - 1]);
                }
            }
        }
        if !s.contains(one) {
            assert(!front.contains(one)) by {
                if front.contains(one) {
                    let k = choose|k: int| 0 <= k < front.len() && front[k] == one;
                    assert(s[k] == one);
                }
            }
            assert(s[s.len() - 1] != one);
        }
    }
}

/// An order that compares any two texts and carries over a third.
spec fn is_order(le: spec_fn(Seq<char>, Seq<char>) -> bool) -> bool {
    &&& forall|a: Seq<char>, b: Seq<char>| #[trigger] le(a, b) || le(b, a)
    &&& forall|a: Seq<char>, b: Seq<char>, c: Seq<char>|
        #[trigger] le(a, b) && #[trigger] le(b, c) ==> le(a, c)
}

/// The order in which older log files come first.
spec fn oldest_first() -> spec_fn(Seq<char>, Seq<char>) -> bool {
    |a: Seq<char>, b: Seq<char>| text_le(a, b)
}

/// The order in which newer log files come first.
spec fn newest_first() -> spec_fn(Seq<char>, Seq<char>) -> bool {
    |a: Seq<char>, b: Seq<char>| text_le(b, a)
}

proof fn lemma_orders()
    ensures
        is_order(oldest_first()),
        is_order(newest_first()),
{
    assert forall|a: Seq<char>, b: Seq<char>| text_le(a, b) || text_le(b, a) by {
        lemma_text_le_total(a, b);
    }
    assert forall|a: Seq<char>, b: Seq<char>, c: Seq<char>|
        text_le(a, b) && text_le(b, c) implies text_le(a, c) by {
        lemma_text_le_transitive(a, b, c);
    }
    let older = oldest_first();
    assert forall|a: Seq<char>, b: Seq<char>| #[trigger] older(a, b) || older(b, a) by {
        assert(text_le(a, b) || text_le(b, a));
    }
    let newer = newest_first();
    assert forall|a: Seq<char>, b: Seq<char>| #[trigger] newer(a, b) || newer(b, a) by {
        assert(text_le(a, b) || text_le(b, a));
    }
}

/// Where a filter keeps something there is one that comes first in an order.
proof fn lemma_first_kept(
    s: Seq<Seq<char>>,
    pred: spec_fn(Seq<char>) -> bool,
    le: spec_fn(Seq<char>, Seq<char>) -> bool,
) -> (k: int)
    requires
        is_order(le),
        s.filter(pred).len() > 0,
    ensures
        0 <= k < s.len(),
        pred(s[k]),
        forall|i: int| 0 <= i < s.len() && pred(#[trigger] s[i]) ==> le(s[k], s[i]),
    decreases s.len(),
{
    reveal(Seq::filter);
    let front = s.drop_last();
    let last = s.len() - 1;
    assert(le(s[last], s[last]));
    if front.filter(pred).len() == 0 {
        assert forall|i: int| 0 <= i < s.len() && pred(#[trigger] s[i]) implies i == last by {
            if i < last {
                assert(front[i] == s[i]);
                lemma_filter_finds(front, pred, i);
            }
        }
        last
    } else {
        let k = lemma_first_kept(front, pred, le);
        assert(front[k] == s[k]);
        assert(le(s[k], s[last]) || le(s[last], s[k]));
        let first = if pred(s[last]) && !le(s[k], s[last]) {
            last
        } else {
            k
        };
        assert forall|i: int| 0 <= i < s.len() && pred(#[trigger] s[i]) implies le(
            s[first],
            s[i],
        ) by {
            if i < last {
                assert(front[i] == s[i]);
                assert(le(s[k], s[i]));
            }
        }
        first
    }
}

/// A filter keeps what it lets through.
proof fn lemma_filter_finds(s: Seq<Seq<char>>, pred: spec_fn(Seq<char>) -> bool, i: int)
    requires
        0 <= i < s.len(),
        pred(s[i]),
    ensures
        s.filter(pred).len() > 0,
    decreases s.len(),
{
    reveal(Seq::filter);
    if i < s.len() - 1 {
        assert(s.drop_last()[i] == s[i]);
        lemma_filter_finds(s.drop_last(), pred, i);
    }
}

/// Every log file that rotation deletes is older than every log file of the script that stays.
pub proof fn law_rotation_deletes_the_oldest(
    names: Seq<Seq<char>>,
    stem: Seq<char>,
    gone: Seq<char>,
    kept: Seq<char>,
)
    requires
        outdated(names, stem)(gone),
        retained(names, stem)(kept),
    ensures
        text_lt(gone, kept),
{
    lemma_text_le_total(gone, kept);
    if text_le(kept, gone) {
        assert forall|i: int| 0 <= i < names.len() && newer_than(gone, stem)(
            #[trigger] names[i],
        ) implies newer_than(kept, stem)(names[i]) by {
            lemma_text_le_transitive(kept, gone, names[i]);
            if names[i] == kept {
                lemma_text_le_antisymmetric(gone, kept);
            }
        }
        lemma_filter_monotone(names, newer_than(gone, stem), newer_than(kept, stem));
    }
}

/// Rotation leaves at most the retention count of a script's log files, and exactly that many
/// where it deletes one.
pub proof fn law_rotation_keeps_the_retention_count(names: Seq<Seq<char>>, stem: Seq<char>)
    requires
        names.no_duplicates(),
    ensures
        names.filter(retained(names, stem)).len() <= LOG_RETENTION,
        names.filter(outdated(names, stem)).len() > 0 ==> names.filter(
            retained(names, stem),
        ).len() == LOG_RETENTION,
{
    let kept = retained(names, stem);
    let gone = outdated(names, stem);
    lemma_orders();
    if names.filter(kept).len() > 0 {
        let k = lemma_first_kept(names, kept, oldest_first());
        let oldest = names[k];
        let others = |n: Seq<char>| kept(n) && n != oldest;
        lemma_filter_all_but_one(names, kept, others, oldest);
        lemma_filter_monotone(names, others, newer_than(oldest, stem));
    }
    if names.filter(gone).len() > 0 {
        let k = lemma_first_kept(names, gone, newest_first());
        let newest = names[k];
        assert forall|i: int| 0 <= i < names.len() && newer_than(newest, stem)(
            #[trigger] names[i],
        ) implies kept(names[i]) by {
            if gone(names[i]) {
                lemma_text_le_antisymmetric(names[i], newest);
            }
        }
        lemma_filter_monotone(names, newer_than(newest, stem), kept);
    }
}

/// The most recent log file of a script is never deleted.
pub proof fn law_rotation_keeps_the_latest(
    names: Seq<Seq<char>>,
    stem: Seq<char>,
    latest: Seq<char>,
)
    requires
        is_latest(names, stem, latest),
    ensures
        retained(names, stem)(latest),
{
    if newer_count(names, stem, latest) > 0 {
        lemma_orders();
        let k = lemma_first_kept(names, newer_than(latest, stem), oldest_first());
        lemma_text_le_antisymmetric(names[k], latest);
    }
}

/// The date of a log file, as the number `YYYYMMDD`.
pub open spec fn log_date(name: Seq<char>, stem: Seq<char>) -> nat {
    numeral(stamp_part(name, stem).take(8), 10)->0
}

/// The time of day of a log file, as the number `HHMMSS`.
pub open spec fn log_time(name: Seq<char>, stem: Seq<char>) -> nat {
    numeral(stamp_part(name, stem).skip(9), 10)->0
}

/// Digits write a number.
proof fn lemma_digits_write_a_number(digits: Seq<char>)
    requires
        forall|i: int| 0 <= i < digits.len() ==> is_digit(#[trigger] digits[i]),
    ensures
        numeral(digits, 10) is Some,
    decreases digits.len(),
{
    if digits.len() > 0 {
        let front = digits.drop_last();
        assert forall|i: int| 0 <= i < front.len() implies is_digit(#[trigger] front[i]) by {
            assert(front[i] == digits[i]);
        }
        lemma_digits_write_a_number(front);
        assert(is_digit(digits[digits.len() - 1]));
    }
}

/// The names of a script's log files are in the order of their dates and times: the alphabetical
/// order works because stamps have a fixed width and leading zeros.
pub proof fn law_log_names_in_order_of_time(a: Seq<char>, b: Seq<char>, stem: Seq<char>)
    requires
        is_log_of(a, stem),
        is_log_of(b, stem),
    ensures
        text_le(a, b) <==> log_date(a, stem) < log_date(b, stem) || (log_date(a, stem) == log_date(
            b,
            stem,
        ) && log_time(a, stem) <= log_time(b, stem)),
{
    let s = stamp_part(a, stem);
    let t = stamp_part(b, stem);
    let head = stem.push('_');
    assert(a =~= head + (s + ".log"@));
    assert(b =~= head + (t + ".log"@));
    lemma_text_le_parts(head, head, s + ".log"@, t + ".log"@);
    lemma_text_le_parts(s, t, ".log"@, ".log"@);
    lemma_text_le_reflexive(".log"@);
    lemma_text_le_reflexive(s);
    assert(text_le(a, b) == text_le(s, t));
    let date_a = s.take(8);
    let date_b = t.take(8);
    let time_a = s.skip(9);
    let time_b = t.skip(9);
    assert(s =~= date_a + (seq!['_'] + time_a));
    assert(t =~= date_b + (seq!['_'] + time_b));
    lemma_text_le_parts(date_a, date_b, seq!['_'] + time_a, seq!['_'] + time_b);
    lemma_text_le_parts(seq!['_'], seq!['_'], time_a, time_b);
    lemma_digits_write_a_number(date_a);
    lemma_digits_write_a_number(date_b);
    lemma_digits_write_a_number(time_a);
    lemma_digits_write_a_number(time_b);
    lemma_text_le_numeral(date_a, date_b);
    lemma_text_le_numeral(date_b, date_a);
    lemma_text_le_numeral(time_a, time_b);
    if text_le(date_a, date_b) && text_le(date_b, date_a) {
        lemma_text_le_antisymmetric(date_a, date_b);
    }
    lemma_text_le_total(date_a, date_b);
}

/// A stamp is fifteen characters: digits, with a `_` behind the first eight.
pub proof fn law_stamps(t: Seq<char>, date: Seq<char>, time: Seq<char>)
    ensures
        is_stamp(t) <==> t.len() == 15 && t[8] == '_' && forall|i: int|
            0 <= i < 15 && i != 8 ==> '0' <= #[trigger] t[i] <= '9',
        date.len() == 8 && time.len() == 6 && (forall|i: int|
            0 <= i < 8 ==> '0' <= #[trigger] date[i] <= '9') && (forall|i: int|
            0 <= i < 6 ==> '0' <= #[trigger] time[i] <= '9') ==> is_stamp(date.push('_') + time),
{
    if is_stamp(t) {
        assert forall|i: int| 0 <= i < 15 && i != 8 implies '0' <= #[trigger] t[i] <= '9' by {
            assert(is_digit(t[i]));
        }
    }
    if date.len() == 8 && time.len() == 6 && (forall|i: int|
        0 <= i < 8 ==> '0' <= #[trigger] date[i] <= '9') && (forall|i: int|
        0 <= i < 6 ==> '0' <= #[trigger] time[i] <= '9') {
        let stamp = date.push('_') + time;
        assert forall|i: int| 0 <= i < 15 && i != 8 implies is_digit(#[trigger] stamp[i]) by {
            if i < 8 {
                assert(stamp[i] == date[i]);
            } else {
                assert(stamp[i] == time[i - 9]);
            }
        }
    }
}

/// A log file of a script is named by the script, a `_`, a stamp and `.log`, and a name is that of
/// one exactly where it can be written so.
pub proof fn law_names_of_log_files(name: Seq<char>, stem: Seq<char>)
    ensures
        forall|stamp: Seq<char>|
            is_stamp(stamp) && name == #[trigger] log_name(stem, stamp) ==> is_log_of(name, stem),
        is_log_of(name, stem) ==> exists|stamp: Seq<char>|
            is_stamp(stamp) && name == #[trigger] log_name(stem, stamp),
        forall|stamp: Seq<char>| #[trigger]
            log_name(stem, stamp) == stem + seq!['_'] + stamp + seq!['.', 'l', 'o', 'g'],
{
    reveal_strlit(".log");
    assert(".log"@ =~= seq!['.', 'l', 'o', 'g']);
    assert forall|stamp: Seq<char>| #[trigger] log_name(stem, stamp) == stem + seq!['_'] + stamp
        + seq!['.', 'l', 'o', 'g'] by {
        assert(stem.push('_') =~= stem + seq!['_']);
    }
    assert forall|stamp: Seq<char>|
        is_stamp(stamp) && name == #[trigger] log_name(stem, stamp) implies is_log_of(
        name,
        stem,
    ) by {
        assert(stamp_part(name, stem) =~= stamp);
    }
    if is_log_of(name, stem) {
        assert(name == log_name(stem, stamp_part(name, stem)));
    }
}

/// The latest log file is a listed one that no other listed one of the script stands behind.
pub proof fn law_latest_log_file(names: Seq<Seq<char>>, stem: Seq<char>, k: int)
    requires
        0 <= k < names.len(),
    ensures
        is_latest(names, stem, names[k]) <==> is_log_of(names[k], stem) && forall|i: int|
            0 <= i < names.len() && is_log_of(#[trigger] names[i], stem) ==> text_le(
                names[i],
                names[k],
            ),
        no_log(names, stem) ==> !is_log_of(names[k], stem),
{
}

/// A log file is deleted exactly where twenty or more others of the same script, among those
/// listed, stand behind it, and stays exactly where fewer do; no other file is concerned.
pub proof fn law_retention(names: Seq<Seq<char>>, stem: Seq<char>, name: Seq<char>)
    ensures
        ({
            let newer = names.filter(
                |n: Seq<char>| is_log_of(n, stem) && text_le(name, n) && n != name,
            ).len();
            &&& outdated(names, stem)(name) <==> is_log_of(name, stem) && newer >= 20
            &&& retained(names, stem)(name) <==> is_log_of(name, stem) && newer < 20
        }),
{
    assert(newer_than(name, stem) =~= (|n: Seq<char>|
        is_log_of(n, stem) && text_le(name, n) && n != name));
}

/// A new log file stands in the log directory, named by the script, a `_`, a time that the clock
/// can give and `.log`, and nothing else is one; where that time has a year of four digits, the
/// file is found again as a log file of the script.
pub proof fn law_new_log_files(
    path: Seq<char>,
    log_dir: Seq<char>,
    stem: Seq<char>,
    stamp: Seq<char>,
)
    ensures
        is_new_log_path(path, log_dir, stem) <==> exists|t: Seq<char>| #[trigger]
            is_clock_stamp(t) && path == joined(
                log_dir,
                stem + seq!['_'] + t + seq!['.', 'l', 'o', 'g'],
            ),
        is_clock_stamp(stamp) && stamp.len() == 15 ==> is_stamp(stamp) && is_log_of(
            log_name(stem, stamp),
            stem,
        ),
{
    law_names_of_log_files(log_name(stem, stamp), stem);
    if is_new_log_path(path, log_dir, stem) {
        let t = choose|t: Seq<char>| #[trigger]
            is_clock_stamp(t) && path == joined(log_dir, log_name(stem, t));
        assert(is_clock_stamp(t) && path == joined(
            log_dir,
            stem + seq!['_'] + t + seq!['.', 'l', 'o', 'g'],
        ));
    }
    if exists|t: Seq<char>| #[trigger]
        is_clock_stamp(t) && path == joined(
            log_dir,
            stem + seq!['_'] + t + seq!['.', 'l', 'o', 'g'],
        ) {
        let t = choose|t: Seq<char>| #[trigger]
            is_clock_stamp(t) && path == joined(
                log_dir,
                stem + seq!['_'] + t + seq!['.', 'l', 'o', 'g'],
            );
        assert(log_name(stem, t) == stem + seq!['_'] + t + seq!['.', 'l', 'o', 'g']);
        assert(is_clock_stamp(t) && path == joined(log_dir, log_name(stem, t)));
    }
    if is_clock_stamp(stamp) && stamp.len() == 15 {
        assert(stamp.skip(0) =~= stamp);
    }
}

} // verus!
