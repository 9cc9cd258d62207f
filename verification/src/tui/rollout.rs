//! The sessions saved on disk and the configuration file, as the pickers
//! and the config panel show them: keys masked, sessions read from their
//! records, newest first.
use vstd::prelude::*;

use crate::ls::{lemma_name_before_irreflexive, lemma_name_before_transitive, name_before, name_less};
use crate::text::{
    byte_len, byte_len_wide, char_width, chars_of, has_prefix, join, join_chars, lines, lines_of, slice_chars,
    starts_with, string_of, trim, trim_chars, trim_start, trim_start_chars, utf8_width, views,
};
use crate::tui::panels::SessionListEntry;
use crate::tui::provider::opt_view;
use crate::tui::render::{find_chars, find_text, lemma_find_text_fits};
use crate::tui::transcript::push_str;

verus! {


// ---------------------------------------------------------------- config

/// `s` without its leading double quotes.
pub open spec fn trim_start_quotes(s: Seq<char>) -> Seq<char>
    decreases s.len(),
{
    if s.len() > 0 && s[0] == '"' {
        trim_start_quotes(s.drop_first())
    } else {
        s
    }
}

/// `s` without its trailing double quotes.
pub open spec fn trim_end_quotes(s: Seq<char>) -> Seq<char>
    decreases s.len(),
{
    if s.len() > 0 && s.last() == '"' {
        trim_end_quotes(s.drop_last())
    } else {
        s
    }
}

/// A value without the quotes around it.
pub open spec fn unquoted(v: Seq<char>) -> Seq<char> {
    trim_end_quotes(trim_start_quotes(v))
}

/// Where the last `n` bytes of `s` begin, when a character starts there.
pub open spec fn suffix_start(s: Seq<char>, n: nat) -> Option<int>
    decreases s.len(),
{
    if n == 0 {
        Some(s.len() as int)
    } else if s.len() == 0 {
        None
    } else if utf8_width(s.last()) > n {
        None
    } else {
        suffix_start(s.drop_last(), (n - utf8_width(s.last())) as nat)
    }
}

/// A key's value as shown: its last four bytes after `***` when it is
/// longer than four bytes, else four stars; quoted.
pub open spec fn masked_value(u: Seq<char>) -> Seq<char> {
    if byte_len(u) > 4 {
        match suffix_start(u, 4) {
            Some(k) => "\"***"@ + u.skip(k) + "\""@,
            None => "\"****\""@,
        }
    } else {
        "\"****\""@
    }
}

/// A line of the configuration as shown: an `api_key` line keeps its
/// indentation and its key up to `=`, and its value is masked; other lines
/// are shown as they are.
pub open spec fn masked_line(line: Seq<char>) -> Seq<char> {
    let t = trim_start(line);
    if starts_with(t, "api_key"@) {
        match find_text(t, "="@) {
            Some(e) => line.take(line.len() - t.len()) + t.take(e + 1) + " "@ + masked_value(unquoted(trim(t.skip(e + 1)))),
            None => line,
        }
    } else {
        line
    }
}

/// Masking the line cuts its value where a character starts.
pub open spec fn line_maskable(line: Seq<char>) -> bool {
    let t = trim_start(line);
    starts_with(t, "api_key"@) ==> match find_text(t, "="@) {
        Some(e) => {
            let u = unquoted(trim(t.skip(e + 1)));
            byte_len(u) > 4 ==> suffix_start(u, 4) is Some
        },
        None => true,
    }
}

/// Every `api_key` line of the configuration can be masked.
pub open spec fn config_redactable(raw: Seq<char>) -> bool {
    forall|i: int| 0 <= i < lines(raw).len() ==> line_maskable(#[trigger] lines(raw)[i])
}

/// The configuration with its keys masked, line by line.
pub open spec fn redacted_config(raw: Seq<char>) -> Seq<char> {
    join(lines(raw).map_values(|l: Seq<char>| masked_line(l)), "\n"@)
}

proof fn lemma_trim_start_suffix(s: Seq<char>)
    ensures
        trim_start(s).len() <= s.len(),
        s.skip(s.len() - trim_start(s).len()) == trim_start(s),
    decreases s.len(),
{
    if s.len() > 0 && crate::text::is_ws(s[0]) {
        lemma_trim_start_suffix(s.drop_first());
        assert(s.skip(s.len() - trim_start(s).len()) =~= s.drop_first().skip(s.drop_first().len() - trim_start(s).len()));
    } else {
        assert(s.skip(0) =~= s);
    }
}

fn trim_start_quotes_chars(s: &[char]) -> (r: Vec<char>)
    ensures
        r@ == trim_start_quotes(s@),
{
    let mut i: usize = 0;
    assert(s@.skip(0) =~= s@);
    while i < s.len() && s[i] == '"'
        invariant
            i <= s.len(),
            trim_start_quotes(s@) == trim_start_quotes(s@.skip(i as int)),
        decreases s.len() - i,
    {
        assert(s@.skip(i as int).drop_first() =~= s@.skip(i + 1));
        i += 1;
    }
    assert(s@.subrange(i as int, s.len() as int) =~= s@.skip(i as int));
    slice_chars(s, i, s.len())
}

fn trim_end_quotes_chars(s: &[char]) -> (r: Vec<char>)
    ensures
        r@ == trim_end_quotes(s@),
{
    let mut j: usize = s.len();
    assert(s@.take(j as int) =~= s@);
    while j > 0 && s[j - 1] == '"'
        invariant
            j <= s.len(),
            trim_end_quotes(s@) == trim_end_quotes(s@.take(j as int)),
        decreases j,
    {
        assert(s@.take(j as int).drop_last() =~= s@.take(j - 1));
        j -= 1;
    }
    assert(s@.subrange(0, j as int) =~= s@.take(j as int));
    slice_chars(s, 0, j)
}

fn suffix_start_of(s: &[char], n: usize) -> (r: Option<usize>)
    ensures
        match r {
            Some(k) => suffix_start(s@, n as nat) == Some(k as int) && k <= s.len(),
            None => suffix_start(s@, n as nat) is None,
        },
{
    let mut k: usize = s.len();
    let mut need: usize = n;
    assert(s@.take(k as int) =~= s@);
    while need > 0
        invariant
            k <= s.len(),
            suffix_start(s@, n as nat) == suffix_start(s@.take(k as int), need as nat),
        decreases k,
    {
        if k == 0 {
            return None;
        }
        let w = char_width(s[k - 1]);
        if w > need {
            return None;
        }
        assert(s@.take(k as int).drop_last() =~= s@.take(k - 1));
        need -= w;
        k -= 1;
    }
    Some(k)
}

fn masked_value_chars(u: &[char]) -> (r: Vec<char>)
    ensures
        r@ == masked_value(u@),
{
    if byte_len_wide(u) > 4 {
        match suffix_start_of(u, 4) {
            Some(k) => {
                let mut v = chars_of("\"***");
                let tail = slice_chars(u, k, u.len());
                assert(tail@ =~= u@.skip(k as int));
                crate::text::extend_chars(&mut v, tail.as_slice());
                push_str(&mut v, "\"");
                v
            },
            None => chars_of("\"****\""),
        }
    } else {
        chars_of("\"****\"")
    }
}

fn masked_line_chars(line: &[char]) -> (r: Vec<char>)
    ensures
        r@ == masked_line(line@),
{
    let t = trim_start_chars(line);
    let key = chars_of("api_key");
    if !has_prefix(t.as_slice(), key.as_slice()) {
        return slice_chars(line, 0, line.len());
    }
    let eq = chars_of("=");
    match find_chars(t.as_slice(), eq.as_slice()) {
        None => {
            assert(line@.subrange(0, line@.len() as int) =~= line@);
            slice_chars(line, 0, line.len())
        },
        Some(e) => {
            proof {
                reveal_strlit("=");
                lemma_find_text_fits(t@, "="@);
                lemma_trim_start_suffix(line@);
            }
            let mut v = slice_chars(line, 0, line.len() - t.len());
            assert(v@ =~= line@.take(line@.len() - t@.len()));
            let head = slice_chars(t.as_slice(), 0, e + 1);
            crate::text::extend_chars(&mut v, head.as_slice());
            push_str(&mut v, " ");
            let rest = slice_chars(t.as_slice(), e + 1, t.len());
            assert(rest@ =~= t@.skip(e + 1));
            let value = trim_chars(rest.as_slice());
            let u = trim_end_quotes_chars(trim_start_quotes_chars(value.as_slice()).as_slice());
            let m = masked_value_chars(u.as_slice());
            crate::text::extend_chars(&mut v, m.as_slice());
            assert(head@ =~= t@.take(e + 1));
            v
        },
    }
}

/// Whether every `api_key` line of the configuration can be masked.
pub fn config_is_redactable(raw: &str) -> (r: bool)
    ensures
        r == config_redactable(raw@),
{
    let ls = lines_of(chars_of(raw).as_slice());
    let mut i: usize = 0;
    while i < ls.len()
        invariant
            i <= ls.len(),
            views(ls@) == lines(raw@),
            forall|k: int| 0 <= k < i ==> line_maskable(#[trigger] lines(raw@)[k]),
        decreases ls.len() - i,
    {
        assert(views(ls@)[i as int] == ls@[i as int]@);
        let t = trim_start_chars(ls[i].as_slice());
        let key = chars_of("api_key");
        if has_prefix(t.as_slice(), key.as_slice()) {
            let eq = chars_of("=");
            match find_chars(t.as_slice(), eq.as_slice()) {
                None => {},
                Some(e) => {
                    proof {
                        reveal_strlit("=");
                        lemma_find_text_fits(t@, "="@);
                    }
                    let rest = slice_chars(t.as_slice(), e + 1, t.len());
                    assert(rest@ =~= t@.skip(e + 1));
                    let value = trim_chars(rest.as_slice());
                    let u = trim_end_quotes_chars(trim_start_quotes_chars(value.as_slice()).as_slice());
                    if byte_len_wide(u.as_slice()) > 4 && suffix_start_of(u.as_slice(), 4).is_none() {
                        return false;
                    }
                },
            }
        }
        i += 1;
    }
    true
}

/// The configuration with each `api_key` value masked to its last four
/// bytes.
pub fn redact_config(raw: &str) -> (r: String)
    requires
        config_redactable(raw@),
    ensures
        r@ == redacted_config(raw@),
{
    let ls = lines_of(chars_of(raw).as_slice());
    let ghost expected = lines(raw@).map_values(|l: Seq<char>| masked_line(l));
    let mut out: Vec<Vec<char>> = Vec::new();
    let mut i: usize = 0;
    while i < ls.len()
        invariant
            i <= ls.len(),
            views(ls@) == lines(raw@),
            expected == lines(raw@).map_values(|l: Seq<char>| masked_line(l)),
            views(out@) == expected.take(i as int),
        decreases ls.len() - i,
    {
        assert(views(ls@)[i as int] == ls@[i as int]@);
        let ghost before = out@;
        out.push(masked_line_chars(ls[i].as_slice()));
        assert(views(out@) =~= views(before).push(masked_line(lines(raw@)[i as int])));
        assert(expected.take((i + 1) as int) =~= expected.take(i as int).push(expected[i as int]));
        i += 1;
    }
    assert(expected.take(i as int) =~= expected);
    let joined = join_chars(&out, chars_of("\n").as_slice());
    string_of(joined.as_slice())
}

/// What the config panel shows: the configuration with its keys masked,
/// then the file's path.
pub open spec fn config_panel(raw: Seq<char>, path: Seq<char>) -> Seq<char> {
    redacted_config(raw) + "\n\n(path: "@ + path + ")"@
}

/// What the config panel shows.
pub fn config_panel_text(raw: &str, path: &str) -> (r: String)
    requires
        config_redactable(raw@),
    ensures
        r@ == config_panel(raw@, path@),
{
    let mut v = chars_of(redact_config(raw).as_str());
    push_str(&mut v, "\n\n(path: ");
    push_str(&mut v, path);
    push_str(&mut v, ")");
    string_of(v.as_slice())
}

/// What the config panel shows when there is no configuration file.
pub fn missing_config_text(path: &str) -> (r: String)
    ensures
        r@ == "(no config.toml at "@ + path@ + ")\n\nRun /configure to create one."@,
{
    let mut v = chars_of("(no config.toml at ");
    push_str(&mut v, path);
    push_str(&mut v, ")\n\nRun /configure to create one.");
    string_of(v.as_slice())
}

// ---------------------------------------------------------------- sessions

/// A record of a session's log, as far as the session list reads it.
#[derive(Clone, Debug)]
pub enum RolloutRecord {
    /// The session's metadata: its id where it parses, its title and when it
    /// was last updated.
    SessionMeta { id: Option<String>, title: Option<String>, updated_at: Option<String> },
    /// A new title, and when it was given.
    TitleUpdated { title: Option<String>, timestamp: Option<String> },
    /// Any other record.
    Other,
}

/// The id, title and update time that a session's records leave: metadata
/// sets all three, a title update sets the title and the time.
pub open spec fn record_state(records: Seq<RolloutRecord>) -> (Option<Seq<char>>, Option<Seq<char>>, Option<Seq<char>>)
    decreases records.len(),
{
    if records.len() == 0 {
        (None, None, None)
    } else {
        let prev = record_state(records.drop_last());
        match records.last() {
            RolloutRecord::SessionMeta { id, title, updated_at } => (opt_view(id), opt_view(title), opt_view(updated_at)),
            RolloutRecord::TitleUpdated { title, timestamp } => (prev.0, opt_view(title), opt_view(timestamp)),
            RolloutRecord::Other => prev,
        }
    }
}

/// The title of a session whose records give none: the log file's name
/// without `rollout-`, or `(untitled)`.
pub open spec fn fallback_title(file_stem: Option<Seq<char>>) -> Seq<char> {
    match file_stem {
        Some(s) => if starts_with(s, "rollout-"@) {
            s.skip(8)
        } else {
            s
        },
        None => "(untitled)"@,
    }
}

/// A value, or the fallback where there is none.
pub open spec fn or_else(o: Option<Seq<char>>, fallback: Seq<char>) -> Seq<char> {
    match o {
        Some(v) => v,
        None => fallback,
    }
}

fn or_else_string(o: Option<String>, fallback: String) -> (r: String)
    ensures
        r@ == or_else(opt_view(o), fallback@),
{
    match o {
        Some(v) => v,
        None => fallback,
    }
}

fn copy_opt(o: &Option<String>) -> (r: Option<String>)
    ensures
        opt_view(r) == opt_view(*o),
{
    match o {
        Some(s) => Some(s.clone()),
        None => None,
    }
}

/// The session list entry of a session's log: what its records say, else
/// `fallback_id`, the title from the file's name, and the file's time of
/// change (`modified`) or `(unknown)`.
pub fn rollout_session_entry(
    records: &[RolloutRecord],
    fallback_id: &str,
    file_stem: Option<&str>,
    modified: Option<&str>,
) -> (r: SessionListEntry)
    ensures
        r.session_id@ == or_else(record_state(records@).0, fallback_id@),
        r.title@ == or_else(
            record_state(records@).1,
            fallback_title(
                match file_stem {
                    Some(s) => Some(s@),
                    None => None,
                },
            ),
        ),
        r.updated_at@ == or_else(
            record_state(records@).2,
            match modified {
                Some(m) => m@,
                None => "(unknown)"@,
            },
        ),
        !r.is_active,
{
    let mut id: Option<String> = None;
    let mut title: Option<String> = None;
    let mut updated_at: Option<String> = None;
    let mut i: usize = 0;
    while i < records.len()
        invariant
            i <= records.len(),
            record_state(records@.take(i as int)) == (opt_view(id), opt_view(title), opt_view(updated_at)),
        decreases records.len() - i,
    {
        assert(records@.take((i + 1) as int).drop_last() =~= records@.take(i as int));
        match &records[i] {
            RolloutRecord::SessionMeta { id: a, title: b, updated_at: c } => {
                id = copy_opt(a);
                title = copy_opt(b);
                updated_at = copy_opt(c);
            },
            RolloutRecord::TitleUpdated { title: b, timestamp: c } => {
                title = copy_opt(b);
                updated_at = copy_opt(c);
            },
            RolloutRecord::Other => {},
        }
        i += 1;
    }
    assert(records@.take(i as int) =~= records@);
    let stem_title = match file_stem {
        Some(s) => {
            let c = chars_of(s);
            let p = chars_of("rollout-");
            if has_prefix(c.as_slice(), p.as_slice()) {
                proof {
                    reveal_strlit("rollout-");
                }
                let rest = slice_chars(c.as_slice(), 8, c.len());
                assert(rest@ =~= s@.skip(8));
                string_of(rest.as_slice())
            } else {
                s.to_owned()
            }
        },
        None => "(untitled)".to_owned(),
    };
    let time = match modified {
        Some(m) => m.to_owned(),
        None => "(unknown)".to_owned(),
    };
    SessionListEntry {
        session_id: or_else_string(id, fallback_id.to_owned()),
        title: or_else_string(title, stem_title),
        updated_at: or_else_string(updated_at, time),
        is_active: false,
    }
}

/// A file's time of change as the session list shows it: whole seconds
/// since the Unix epoch, or `(unknown)` for a time before it.
pub open spec fn system_time_text(secs_since_epoch: Option<u64>) -> Seq<char> {
    match secs_since_epoch {
        Some(s) => "unix "@ + crate::text::decimal(s as nat),
        None => "(unknown)"@,
    }
}

/// A file's time of change as the session list shows it;
/// `secs_since_epoch` is `None` for a time before the epoch.
pub fn format_system_time(secs_since_epoch: Option<u64>) -> (r: String)
    ensures
        r@ == system_time_text(secs_since_epoch),
{
    match secs_since_epoch {
        Some(s) => {
            let mut v = chars_of("unix ");
            crate::text::push_decimal_u64(&mut v, s);
            string_of(v.as_slice())
        },
        None => "(unknown)".to_owned(),
    }
}

/// A session list entry, by value.
pub open spec fn session_view(e: SessionListEntry) -> (Seq<char>, Seq<char>, Seq<char>, bool) {
    (e.session_id@, e.title@, e.updated_at@, e.is_active)
}

/// The values of session list entries.
pub open spec fn session_views(es: Seq<SessionListEntry>) -> Seq<(Seq<char>, Seq<char>, Seq<char>, bool)> {
    es.map_values(|e: SessionListEntry| session_view(e))
}

/// The order in which sessions are listed: each position once, the most
/// recently updated first (comparing the times as text), sessions updated
/// at the same time in the order given.
pub open spec fn stable_newest_first(order: Seq<usize>, es: Seq<SessionListEntry>) -> bool {
    &&& order.len() == es.len()
    &&& forall|i: int| 0 <= i < order.len() ==> order[i] < es.len()
    &&& forall|i: int, j: int| 0 <= i < j < order.len() ==> order[i] != order[j]
    &&& forall|i: int, j: int|
        0 <= i < j < order.len() ==> name_before(es[order[j] as int].updated_at@, es[order[i] as int].updated_at@)
            || (es[order[i] as int].updated_at@ == es[order[j] as int].updated_at@ && order[i] < order[j])
}

/// Two names are equal or one sorts before the other.
pub proof fn lemma_name_before_total(a: Seq<char>, b: Seq<char>)
    ensures
        a == b || name_before(a, b) || name_before(b, a),
    decreases a.len(),
{
    if a.len() > 0 && b.len() > 0 && a[0] == b[0] {
        lemma_name_before_total(a.drop_first(), b.drop_first());
        if a.drop_first() == b.drop_first() {
            assert(a =~= seq![a[0]] + a.drop_first());
            assert(b =~= seq![b[0]] + b.drop_first());
        }
    } else if a.len() == 0 && b.len() == 0 {
        assert(a =~= b);
    } else if a.len() > 0 && b.len() > 0 {
        vstd::utf8::char_u32_cast(a[0], a[0] as u32);
        vstd::utf8::char_u32_cast(b[0], b[0] as u32);
        assert((a[0] as u32) != (b[0] as u32));
    }
}

fn order_by_updated(es: &Vec<SessionListEntry>) -> (r: Vec<usize>)
    ensures
        stable_newest_first(r@, es@),
{
    let mut r: Vec<usize> = Vec::new();
    let mut i: usize = 0;
    while i < es.len()
        invariant
            i <= es.len(),
            r@.len() == i,
            forall|k: int| 0 <= k < r@.len() ==> r@[k] < i,
            forall|a: int, b: int| 0 <= a < b < r@.len() ==> r@[a] != r@[b],
            forall|a: int, b: int|
                0 <= a < b < r@.len() ==> name_before(es@[r@[b] as int].updated_at@, es@[r@[a] as int].updated_at@)
                    || (es@[r@[a] as int].updated_at@ == es@[r@[b] as int].updated_at@ && r@[a] < r@[b]),
        decreases es.len() - i,
    {
        let key = chars_of(es[i].updated_at.as_str());
        let ghost k = es@[i as int].updated_at@;
        let mut p: usize = 0;
        while p < r.len() && !name_less(chars_of(es[r[p]].updated_at.as_str()).as_slice(), key.as_slice())
            invariant
                p <= r@.len(),
                forall|q: int| 0 <= q < r@.len() ==> r@[q] < i,
                i < es.len(),
                key@ == k,
                k == es@[i as int].updated_at@,
                forall|q: int| 0 <= q < p ==> !name_before(es@[r@[q] as int].updated_at@, k),
            decreases r@.len() - p,
        {
            p += 1;
        }
        let ghost before = r@;
        proof {
            assert forall|q: int| p <= q < before.len() implies name_before(es@[before[q] as int].updated_at@, k) by {
                let kp = es@[before[p as int] as int].updated_at@;
                assert(name_before(kp, k));
                if q > p {
                    let kq = es@[before[q] as int].updated_at@;
                    if kq != kp {
                        lemma_name_before_transitive(kq, kp, k);
                    }
                }
            }
        }
        r.insert(p, i);
        proof {
            let after = r@;
            assert(after =~= before.take(p as int).push(i).add(before.skip(p as int)));
            assert forall|q: int| 0 <= q < after.len() implies after[q] < i + 1 by {
                if q < p {
                    assert(after[q] == before[q]);
                } else if q > p {
                    assert(after[q] == before[q - 1]);
                }
            }
            assert forall|a: int, b: int| 0 <= a < b < after.len() implies after[a] != after[b] by {
                if a < p && b < p {
                    assert(after[a] == before[a] && after[b] == before[b]);
                } else if a < p && b == p {
                    assert(after[a] == before[a]);
                } else if a < p && b > p {
                    assert(after[a] == before[a] && after[b] == before[b - 1]);
                } else if a == p {
                    assert(after[b] == before[b - 1]);
                } else {
                    assert(after[a] == before[a - 1] && after[b] == before[b - 1]);
                }
            }
            assert forall|a: int, b: int| 0 <= a < b < after.len() implies name_before(
                es@[after[b] as int].updated_at@,
                es@[after[a] as int].updated_at@,
            ) || (es@[after[a] as int].updated_at@ == es@[after[b] as int].updated_at@ && after[a] < after[b]) by {
                if a < p && b < p {
                    assert(after[a] == before[a] && after[b] == before[b]);
                } else if a < p && b == p {
                    assert(after[a] == before[a]);
                    assert(after[b] == i);
                    lemma_name_before_total(es@[before[a] as int].updated_at@, k);
                } else if a < p && b > p {
                    assert(after[a] == before[a] && after[b] == before[b - 1]);
                } else if a == p {
                    assert(after[a] == i);
                    assert(after[b] == before[b - 1]);
                } else {
                    assert(after[a] == before[a - 1] && after[b] == before[b - 1]);
                }
            }
        }
        i += 1;
    }
    r
}

fn copy_entry(e: &SessionListEntry) -> (r: SessionListEntry)
    ensures
        session_view(r) == session_view(*e),
{
    SessionListEntry {
        session_id: e.session_id.clone(),
        title: e.title.clone(),
        updated_at: e.updated_at.clone(),
        is_active: e.is_active,
    }
}

/// Sorts sessions by their time of update, newest first, keeping the order
/// of sessions updated at the same time.
pub fn sort_sessions(entries: Vec<SessionListEntry>) -> (r: Vec<SessionListEntry>)
    ensures
        exists|order: Seq<usize>|
            stable_newest_first(order, entries@) && session_views(r@) == order.map_values(
                |i: usize| session_view(entries@[i as int]),
            ),
{
    let order = order_by_updated(&entries);
    let mut r: Vec<SessionListEntry> = Vec::new();
    let mut k: usize = 0;
    while k < order.len()
        invariant
            k <= order.len(),
            stable_newest_first(order@, entries@),
            session_views(r@) == order@.take(k as int).map_values(|i: usize| session_view(entries@[i as int])),
        decreases order.len() - k,
    {
        let ghost before = r@;
        r.push(copy_entry(&entries[order[k]]));
        proof {
            assert(session_views(r@) =~= session_views(before).push(session_view(entries@[order@[k as int] as int])));
            assert(order@.take((k + 1) as int).map_values(|i: usize| session_view(entries@[i as int])) =~= order@.take(
                k as int,
            ).map_values(|i: usize| session_view(entries@[i as int])).push(session_view(entries@[order@[k as int] as int])));
        }
        k += 1;
    }
    assert(order@.take(k as int) =~= order@);
    r
}

} // verus!
