use vstd::prelude::*;

use crate::text::{
    chars_of, decimal, decimal_chars, parse_bool, parse_bool_chars, parse_unsigned,
    parse_unsigned_chars, push_chars, push_str, split, split_chars, string_of, views,
};
use crate::utils::config_data::bool_text;

verus! {

/// The emoji in front of reminder messages.
pub const REMINDER_EMOJI: &'static str = "<:reminder_set:1061639553154285669>";

/// The cooldown of an action, in seconds; it also tells which action a reminder is for.
#[derive(Debug, Clone, Copy, PartialEq, Eq, Structural, PartialOrd, Ord, Hash)]
pub struct ReminderTime(pub u32);

impl ReminderTime {
    /// The drop cooldown.
    pub fn drop() -> (r: Self)
        ensures
            r.0 == 480,
    {
        ReminderTime(480)
    }

    /// The grab cooldown.
    pub fn grab() -> (r: Self)
        ensures
            r.0 == 240,
    {
        ReminderTime(240)
    }

    /// The raid cooldown.
    pub fn raid() -> (r: Self)
        ensures
            r.0 == 43200,
    {
        ReminderTime(43200)
    }

    /// A short cooldown for trying reminders out.
    pub fn dev() -> (r: Self)
        ensures
            r.0 == 10,
    {
        ReminderTime(10)
    }
}

/// The name of the action a reminder is for: `drop` for anything unknown.
pub open spec fn name_of(t: ReminderTime) -> Seq<char> {
    if t.0 == 240 {
        "grab"@
    } else if t.0 == 43200 {
        "raid"@
    } else {
        "drop"@
    }
}

/// The name of the action a reminder is for.
pub fn get_name(t: ReminderTime) -> (r: String)
    ensures
        r@ == name_of(t),
{
    match t.0 {
        480 => "drop".to_owned(),
        240 => "grab".to_owned(),
        43200 => "raid".to_owned(),
        _ => "drop".to_owned(),
    }
}

/// Whose reminder for which action: a user id and a cooldown.
#[derive(Debug, Clone, Copy, PartialEq, Eq, Structural, PartialOrd, Ord, Hash)]
pub struct ReminderType(pub u64, pub ReminderTime);

/// Where a reminder goes: the channel id, and whether it is sent as a direct message.
#[derive(Debug, Clone, Copy, PartialEq, Eq, Structural)]
pub struct ReminderData(pub u64, pub bool);

/// The current time in seconds since the Unix epoch (`SystemTime::now`), or `None` when the
/// clock reads earlier than the epoch. Nothing is claimed of the value: it depends on the clock.
#[verifier::external_body]
pub fn current_time() -> Option<u64> {
    std::time::SystemTime::now().duration_since(std::time::UNIX_EPOCH).ok().map(|d| d.as_secs())
}

/// A running reminder: whose and for what, when it started, and where it goes.
#[derive(Debug, Clone, Copy, PartialEq, Eq, Structural)]
pub struct SavedReminder {
    pub kind: ReminderType,
    pub start: u64,
    pub data: ReminderData,
}

/// The seconds left before a reminder of `time` seconds started at `start` is due, or `None`
/// when it is already past.
pub open spec fn delay(time: u32, start: u64, now: u64) -> Option<u64> {
    if (time as int) < now - start {
        None
    } else {
        Some((time - (now - start)) as u64)
    }
}

/// The seconds left before a reminder is due (see [`delay`]).
pub fn reminder_delay(time: ReminderTime, start: u64, now: u64) -> (r: Option<u64>)
    requires
        start <= now,
    ensures
        r == delay(time.0, start, now),
{
    (time.0 as u64).checked_sub(now - start)
}

/// One saved reminder: `user,time,start,channel,is_dm&`.
pub open spec fn record(r: SavedReminder) -> Seq<char> {
    decimal(r.kind.0 as nat) + seq![','] + decimal(r.kind.1.0 as nat) + seq![','] + decimal(
        r.start as nat,
    ) + seq![','] + decimal(r.data.0 as nat) + seq![','] + bool_text(r.data.1)
}

/// The saved form of the reminders `rs`: each record followed by `&`.
pub open spec fn serialized(rs: Seq<SavedReminder>) -> Seq<char>
    decreases rs.len(),
{
    if rs.len() == 0 {
        Seq::empty()
    } else {
        record(rs[0]) + seq!['&'] + serialized(rs.drop_first())
    }
}

/// What one saved record gives back at time `now`: `None` for a missing or malformed field,
/// or a start in the future; `Some(None)` for a reminder already past.
pub open spec fn restore_record(r: Seq<char>, now: u64) -> Option<Option<SavedReminder>> {
    let f = split(r, seq![',']);
    if f.len() < 3 {
        None
    } else {
        match (parse_unsigned(f[2], u64::MAX as nat), parse_unsigned(f[1], u32::MAX as nat)) {
            (Some(start), Some(time)) => if now < start {
                None
            } else if time < now - start {
                Some(None)
            } else if f.len() < 5 {
                None
            } else {
                match (
                    parse_unsigned(f[0], u64::MAX as nat),
                    parse_unsigned(f[3], u64::MAX as nat),
                    parse_bool(f[4]),
                ) {
                    (Some(user), Some(channel), Some(dm)) => Some(
                        Some(
                            SavedReminder {
                                kind: ReminderType(user as u64, ReminderTime(time as u32)),
                                start: start as u64,
                                data: ReminderData(channel as u64, dm),
                            },
                        ),
                    ),
                    _ => None,
                }
            },
            _ => None,
        }
    }
}

/// The reminders restored from the records `rs` at time `now`, in order, skipping those already
/// past; `None` if any record cannot be restored.
pub open spec fn restore_records(rs: Seq<Seq<char>>, now: u64) -> Option<Seq<SavedReminder>>
    decreases rs.len(),
{
    if rs.len() == 0 {
        Some(Seq::empty())
    } else {
        match (restore_record(rs[0], now), restore_records(rs.drop_first(), now)) {
            (Some(Some(r)), Some(rest)) => Some(seq![r] + rest),
            (Some(None), Some(rest)) => Some(rest),
            _ => None,
        }
    }
}

/// The reminders restored from the saved `contents` at time `now`: the `&`-separated records
/// but the last piece.
pub open spec fn restore(contents: Seq<char>, now: u64) -> Option<Seq<SavedReminder>> {
    restore_records(split(contents, seq!['&']).drop_last(), now)
}

/// The saved form of `rs` (see [`serialized`]).
pub fn serialize_reminders(rs: &Vec<SavedReminder>) -> (r: String)
    ensures
        r@ == serialized(rs@),
{
    let mut out: Vec<char> = Vec::new();
    let mut i: usize = rs.len();
    assert(rs@.skip(rs@.len() as int) =~= Seq::<SavedReminder>::empty());
    while i > 0
        invariant
            i <= rs@.len(),
            out@ == serialized(rs@.skip(i as int)),
        decreases i,
    {
        i = i - 1;
        let r = rs[i];
        let mut line: Vec<char> = Vec::new();
        crate::text::push_decimal(&mut line, r.kind.0 as u128);
        line.push(',');
        crate::text::push_decimal(&mut line, r.kind.1.0 as u128);
        line.push(',');
        crate::text::push_decimal(&mut line, r.start as u128);
        line.push(',');
        crate::text::push_decimal(&mut line, r.data.0 as u128);
        line.push(',');
        if r.data.1 {
            push_str(&mut line, "true");
        } else {
            push_str(&mut line, "false");
        }
        line.push('&');
        assert(line@ =~= record(r) + seq!['&']);
        push_chars(&mut line, &out);
        assert(rs@.skip(i as int).drop_first() =~= rs@.skip(i + 1));
        assert(line@ =~= serialized(rs@.skip(i as int)));
        out = line;
    }
    assert(rs@.skip(0) =~= rs@);
    string_of(&out)
}

fn restore_record_chars(r: &Vec<char>, now: u64) -> (res: Option<Option<SavedReminder>>)
    ensures
        res == restore_record(r@, now),
{
    let comma = vec![','];
    assert(comma@ =~= seq![',']);
    let f = split_chars(r, &comma);
    let ghost fs = split(r@, seq![',']);
    assert(views(f@) == fs);
    if f.len() < 3 {
        return None;
    }
    assert(fs[2] == f@[2]@ && fs[1] == f@[1]@ && fs[0] == f@[0]@);
    let start = match parse_unsigned_chars(&f[2], 18446744073709551615u64) {
        Some(v) => v,
        None => return None,
    };
    let time = match parse_unsigned_chars(&f[1], 4294967295u64) {
        Some(v) => v,
        None => return None,
    };
    if now < start {
        return None;
    }
    if time < now - start {
        return Some(None);
    }
    if f.len() < 5 {
        return None;
    }
    assert(fs[3] == f@[3]@ && fs[4] == f@[4]@);
    let user = parse_unsigned_chars(&f[0], 18446744073709551615u64);
    let channel = parse_unsigned_chars(&f[3], 18446744073709551615u64);
    let dm = parse_bool_chars(&f[4]);
    match (user, channel, dm) {
        (Some(u), Some(c), Some(d)) => Some(
            Some(
                SavedReminder {
                    kind: ReminderType(u, ReminderTime(time as u32)),
                    start: start,
                    data: ReminderData(c, d),
                },
            ),
        ),
        _ => None,
    }
}

/// The reminders restored from saved `contents` at time `now` (see [`restore`]).
pub fn restore_reminders(contents: &str, now: u64) -> (res: Option<Vec<SavedReminder>>)
    ensures
        match res {
            Some(v) => restore(contents@, now) == Some(v@),
            None => restore(contents@, now) is None,
        },
{
    let amp = vec!['&'];
    assert(amp@ =~= seq!['&']);
    let mut records = split_chars(&chars_of(contents), &amp);
    let ghost all = split(contents@, seq!['&']);
    records.pop();
    let ghost rs = all.drop_last();
    assert(views(records@) =~= rs);
    let mut out: Vec<SavedReminder> = Vec::new();
    let mut i: usize = records.len();
    assert(rs.skip(rs.len() as int) =~= Seq::<Seq<char>>::empty());
    while i > 0
        invariant
            i <= records@.len(),
            views(records@) == rs,
            rs == split(contents@, seq!['&']).drop_last(),
            restore_records(rs.skip(i as int), now) == Some(out@),
        decreases i,
    {
        i = i - 1;
        assert(rs.skip(i as int)[0] == records@[i as int]@);
        assert(rs.skip(i as int).drop_first() =~= rs.skip(i + 1));
        match restore_record_chars(&records[i], now) {
            None => {
                let mut j = i;
                while j > 0
                    invariant
                        j <= i,
                        restore_records(rs.skip(j as int), now) is None,
                        views(records@) == rs,
                        rs == split(contents@, seq!['&']).drop_last(),
                        i < rs.len(),
                    decreases j,
                {
                    assert(rs.skip(j - 1).drop_first() =~= rs.skip(j as int));
                    j = j - 1;
                }
                assert(rs.skip(0) =~= rs);
                return None;
            },
            Some(None) => {},
            Some(Some(r)) => {
                let ghost old_out = out@;
                out.insert(0, r);
                assert(out@ =~= seq![r] + old_out);
            },
        }
    }
    assert(rs.skip(0) =~= rs);
    Some(out)
}


/// The reminders of `rs` that are still due at time `now`, in order.
pub open spec fn pending(rs: Seq<SavedReminder>, now: u64) -> Seq<SavedReminder>
    decreases rs.len(),
{
    if rs.len() == 0 {
        rs
    } else if delay(rs[0].kind.1.0, rs[0].start, now) is None {
        pending(rs.drop_first(), now)
    } else {
        seq![rs[0]] + pending(rs.drop_first(), now)
    }
}

proof fn lemma_decimal_no(n: nat, c: char)
    requires
        !('0' <= c && c <= '9'),
    ensures
        !decimal(n).contains(c),
{
    crate::text::lemma_decimal_digits(n);
    if decimal(n).contains(c) {
        let k = choose|k: int| 0 <= k < decimal(n).len() && decimal(n)[k] == c;
        assert(crate::text::is_digit(decimal(n)[k]));
    }
}

proof fn lemma_bool_text(b: bool)
    ensures
        parse_bool(bool_text(b)) == Some(b),
        !bool_text(b).contains(','),
        !bool_text(b).contains('&'),
{
    reveal_strlit("true");
    reveal_strlit("false");
    if b {
        assert(bool_text(b) =~= seq!['t', 'r', 'u', 'e']);
    } else {
        assert(bool_text(b) =~= seq!['f', 'a', 'l', 's', 'e']);
    }
}

#[verifier::spinoff_prover]
#[verifier::rlimit(40)]
proof fn lemma_record(r: SavedReminder, now: u64)
    requires
        r.start <= now,
    ensures
        !record(r).contains('&'),
        restore_record(record(r), now) == (if delay(r.kind.1.0, r.start, now) is None {
            Some(None)
        } else {
            Some(Some(r))
        }),
{
    let d0 = decimal(r.kind.0 as nat);
    let d1 = decimal(r.kind.1.0 as nat);
    let d2 = decimal(r.start as nat);
    let d3 = decimal(r.data.0 as nat);
    let bt = bool_text(r.data.1);
    lemma_decimal_no(r.kind.0 as nat, ',');
    lemma_decimal_no(r.kind.1.0 as nat, ',');
    lemma_decimal_no(r.start as nat, ',');
    lemma_decimal_no(r.data.0 as nat, ',');
    lemma_decimal_no(r.kind.0 as nat, '&');
    lemma_decimal_no(r.kind.1.0 as nat, '&');
    lemma_decimal_no(r.start as nat, '&');
    lemma_decimal_no(r.data.0 as nat, '&');
    lemma_bool_text(r.data.1);
    let c = seq![','];
    let t3 = d3 + c + bt;
    let t2 = d2 + c + t3;
    let t1 = d1 + c + t2;
    assert(record(r) =~= d0 + c + t1);
    crate::text::lemma_split_no_sep(bt, ',');
    crate::text::lemma_split_single(d3, ',', bt);
    crate::text::lemma_split_single(d2, ',', t3);
    crate::text::lemma_split_single(d1, ',', t2);
    crate::text::lemma_split_single(d0, ',', t1);
    let f = split(record(r), c);
    assert(f =~= seq![d0, d1, d2, d3, bt]);
    crate::text::lemma_parse_decimal(r.kind.0 as nat, u64::MAX as nat);
    crate::text::lemma_parse_decimal(r.kind.1.0 as nat, u32::MAX as nat);
    crate::text::lemma_parse_decimal(r.start as nat, u64::MAX as nat);
    crate::text::lemma_parse_decimal(r.data.0 as nat, u64::MAX as nat);
    assert(!record(r).contains('&')) by {
        if record(r).contains('&') {
            let k = choose|k: int| 0 <= k < record(r).len() && record(r)[k] == '&';
            let all = d0 + c + d1 + c + d2 + c + d3 + c + bt;
            assert(record(r) =~= all);
            if k < d0.len() {
                assert(d0[k] == '&');
            } else if k < d0.len() + 1 {
            } else if k < d0.len() + 1 + d1.len() {
                assert(d1[k - d0.len() - 1] == '&');
            } else if k < d0.len() + 2 + d1.len() {
            } else if k < d0.len() + 2 + d1.len() + d2.len() {
                assert(d2[k - d0.len() - 2 - d1.len()] == '&');
            } else if k < d0.len() + 3 + d1.len() + d2.len() {
            } else if k < d0.len() + 3 + d1.len() + d2.len() + d3.len() {
                assert(d3[k - d0.len() - 3 - d1.len() - d2.len()] == '&');
            } else if k < d0.len() + 4 + d1.len() + d2.len() + d3.len() {
            } else {
                assert(bt[k - d0.len() - 4 - d1.len() - d2.len() - d3.len()] == '&');
            }
        }
    }
}

proof fn lemma_split_serialized(rs: Seq<SavedReminder>)
    ensures
        split(serialized(rs), seq!['&']) == rs.map_values(|r: SavedReminder| record(r)).push(Seq::empty()),
    decreases rs.len(),
{
    if rs.len() == 0 {
        crate::text::lemma_split_no_sep(Seq::<char>::empty(), '&');
        assert(rs.map_values(|r: SavedReminder| record(r)).push(Seq::empty()) =~= seq![Seq::<char>::empty()]);
    } else {
        lemma_record(rs[0], rs[0].start);
        crate::text::lemma_split_single(record(rs[0]), '&', serialized(rs.drop_first()));
        lemma_split_serialized(rs.drop_first());
        assert(rs.map_values(|r: SavedReminder| record(r)).push(Seq::empty()) =~= seq![record(rs[0])]
            + rs.drop_first().map_values(|r: SavedReminder| record(r)).push(Seq::empty()));
    }
}

proof fn lemma_restore_records(rs: Seq<SavedReminder>, now: u64)
    requires
        forall|i: int| 0 <= i < rs.len() ==> (#[trigger] rs[i]).start <= now,
    ensures
        restore_records(rs.map_values(|r: SavedReminder| record(r)), now) == Some(pending(rs, now)),
    decreases rs.len(),
{
    if rs.len() > 0 {
        let ms = rs.map_values(|r: SavedReminder| record(r));
        assert(ms.drop_first() =~= rs.drop_first().map_values(|r: SavedReminder| record(r)));
        assert(rs[0].start <= now);
        lemma_record(rs[0], now);
        assert forall|i: int| 0 <= i < rs.drop_first().len() implies (#[trigger] rs.drop_first()[i]).start
            <= now by {
            assert(rs.drop_first()[i] == rs[i + 1]);
        }
        lemma_restore_records(rs.drop_first(), now);
    } else {
        assert(rs.map_values(|r: SavedReminder| record(r)) =~= Seq::<Seq<char>>::empty());
    }
}

/// Law: restoring what was saved gives back, in order, every saved reminder that is still due,
/// provided none of them started after the time of restoring.
pub proof fn law_restore_after_save(rs: Seq<SavedReminder>, now: u64)
    requires
        forall|i: int| 0 <= i < rs.len() ==> (#[trigger] rs[i]).start <= now,
    ensures
        restore(serialized(rs), now) == Some(pending(rs, now)),
{
    lemma_split_serialized(rs);
    assert(split(serialized(rs), seq!['&']).drop_last() =~= rs.map_values(|r: SavedReminder| record(r)));
    lemma_restore_records(rs, now);
}


/// `rs` without the reminders of `kind`, in order.
pub open spec fn without_kind(rs: Seq<SavedReminder>, kind: ReminderType) -> Seq<SavedReminder>
    decreases rs.len(),
{
    if rs.len() == 0 {
        rs
    } else if rs.last().kind == kind {
        without_kind(rs.drop_last(), kind)
    } else {
        without_kind(rs.drop_last(), kind).push(rs.last())
    }
}

/// The reminder of `kind` in `rs`, if any (the first).
pub open spec fn reminder_of(rs: Seq<SavedReminder>, kind: ReminderType) -> Option<SavedReminder>
    decreases rs.len(),
{
    if rs.len() == 0 {
        None
    } else if rs[0].kind == kind {
        Some(rs[0])
    } else {
        reminder_of(rs.drop_first(), kind)
    }
}

/// No two reminders of `rs` are for the same user and action.
pub open spec fn distinct_kinds(rs: Seq<SavedReminder>) -> bool {
    forall|i: int, j: int| 0 <= i < j < rs.len() ==> rs[i].kind != rs[j].kind
}

proof fn lemma_without_kind(rs: Seq<SavedReminder>, kind: ReminderType)
    ensures
        forall|i: int| 0 <= i < without_kind(rs, kind).len() ==> (#[trigger] without_kind(rs, kind)[i]).kind != kind
            && rs.contains(without_kind(rs, kind)[i]),
        distinct_kinds(rs) ==> distinct_kinds(without_kind(rs, kind)),
        reminder_of(without_kind(rs, kind), kind) is None,
        without_kind(rs, kind).len() <= rs.len(),
    decreases rs.len(),
{
    if rs.len() > 0 {
        lemma_without_kind(rs.drop_last(), kind);
        let w = without_kind(rs, kind);
        let w0 = without_kind(rs.drop_last(), kind);
        assert forall|i: int| 0 <= i < w0.len() implies rs.contains(#[trigger] w0[i]) by {
            assert(rs.drop_last().contains(w0[i]));
            let k = choose|k: int| 0 <= k < rs.drop_last().len() && rs.drop_last()[k] == w0[i];
            assert(rs[k] == w0[i]);
        }
        if rs.last().kind != kind {
            assert(w == w0.push(rs.last()));
            assert(rs[rs.len() - 1] == rs.last());
            if distinct_kinds(rs) {
                assert(distinct_kinds(rs.drop_last()));
                assert forall|i: int, j: int| 0 <= i < j < w.len() implies w[i].kind != w[j].kind by {
                    if j == w.len() - 1 {
                        let k = choose|k: int| 0 <= k < rs.len() && rs[k] == w0[i];
                        if k == rs.len() - 1 {
                            assert(rs.drop_last().contains(w0[i]));
                            let k2 = choose|k2: int| 0 <= k2 < rs.drop_last().len() && rs.drop_last()[k2] == w0[i];
                            assert(rs[k2] == w0[i]);
                            assert(rs[k2].kind != rs[rs.len() - 1].kind);
                        }
                    }
                }
            }
            lemma_reminder_of_push_other(w0, rs.last(), kind);
        } else {
            if distinct_kinds(rs) {
                assert(distinct_kinds(rs.drop_last()));
            }
        }
    }
}

proof fn lemma_reminder_of_push_other(rs: Seq<SavedReminder>, r: SavedReminder, kind: ReminderType)
    requires
        r.kind != kind,
        reminder_of(rs, kind) is None,
    ensures
        reminder_of(rs.push(r), kind) is None,
    decreases rs.len(),
{
    if rs.len() > 0 {
        assert(rs.push(r).drop_first() =~= rs.drop_first().push(r));
        assert(rs.push(r)[0] == rs[0]);
        assert(rs[0].kind != kind);
        assert(reminder_of(rs.drop_first(), kind) is None);
        lemma_reminder_of_push_other(rs.drop_first(), r, kind);
        assert(reminder_of(rs.push(r).drop_first(), kind) is None);
    } else {
        assert(rs.push(r).drop_first() =~= Seq::<SavedReminder>::empty());
        assert(rs.push(r)[0] == r);
        assert(reminder_of(Seq::<SavedReminder>::empty(), kind) is None);
        assert(reminder_of(rs.push(r).drop_first(), kind) is None);
    }
}

proof fn lemma_reminder_of_push(rs: Seq<SavedReminder>, r: SavedReminder)
    requires
        reminder_of(rs, r.kind) is None,
    ensures
        reminder_of(rs.push(r), r.kind) == Some(r),
    decreases rs.len(),
{
    if rs.len() > 0 {
        assert(rs.push(r).drop_first() =~= rs.drop_first().push(r));
        assert(rs.push(r)[0] == rs[0]);
        lemma_reminder_of_push(rs.drop_first(), r);
    } else {
        assert(rs.push(r)[0] == r);
    }
}

/// What a reminder request leads to.
pub enum ReminderAction {
    /// Start `start`; `replaced` is the running reminder it takes the place of, to be stopped.
    Start { replaced: Option<SavedReminder>, start: SavedReminder },
    /// Save `contents` (the `count` running reminders) and stop.
    Save { contents: String, count: usize },
}

/// The running reminders, at most one for each user and action.
pub struct ReminderTable {
    reminders: Vec<SavedReminder>,
}

impl View for ReminderTable {
    type V = Seq<SavedReminder>;

    closed spec fn view(&self) -> Seq<SavedReminder> {
        self.reminders@
    }
}

impl ReminderTable {
    #[verifier::type_invariant]
    closed spec fn inv(self) -> bool {
        distinct_kinds(self.reminders@)
    }

    pub fn new() -> (r: ReminderTable)
        ensures
            r@ == Seq::<SavedReminder>::empty(),
            distinct_kinds(r@),
    {
        ReminderTable { reminders: Vec::new() }
    }

    /// The number of running reminders.
    pub fn len(&self) -> (n: usize)
        ensures
            n == self@.len(),
    {
        self.reminders.len()
    }

    /// The running reminders.
    pub fn reminders(&self) -> (r: Vec<SavedReminder>)
        ensures
            r@ == self@,
            distinct_kinds(self@),
    {
        proof {
            use_type_invariant(self);
        }
        self.reminders.clone()
    }

    /// Makes `r` the running reminder of its user and action, in place of the one there was, if
    /// any, which is returned.
    pub fn insert(&mut self, r: SavedReminder) -> (replaced: Option<SavedReminder>)
        ensures
            final(self)@ == without_kind(old(self)@, r.kind).push(r),
            replaced == reminder_of(old(self)@, r.kind),
            distinct_kinds(final(self)@),
            reminder_of(final(self)@, r.kind) == Some(r),
    {
        proof {
            use_type_invariant(&*self);
        }
        let mut kept: Vec<SavedReminder> = Vec::new();
        let mut replaced: Option<SavedReminder> = None;
        let mut i: usize = 0;
        let ghost rs = self.reminders@;
        assert(rs.take(0) =~= Seq::<SavedReminder>::empty());
        assert(rs.skip(0) =~= rs);
        while i < self.reminders.len()
            invariant
                i <= rs.len(),
                rs == self.reminders@,
                distinct_kinds(rs),
                kept@ == without_kind(rs.take(i as int), r.kind),
                replaced is Some ==> replaced == reminder_of(rs, r.kind),
                replaced is None ==> reminder_of(rs, r.kind) == reminder_of(rs.skip(i as int), r.kind),
            decreases rs.len() - i,
        {
            let e = self.reminders[i];
            assert(rs.take(i + 1).drop_last() =~= rs.take(i as int));
            assert(rs.skip(i as int).drop_first() =~= rs.skip(i + 1));
            if e.kind == r.kind {
                if replaced.is_none() {
                    replaced = Some(e);
                }
            } else {
                kept.push(e);
            }
            i = i + 1;
        }
        assert(rs.take(rs.len() as int) =~= rs);
        proof {
            lemma_without_kind(rs, r.kind);
            lemma_reminder_of_push(without_kind(rs, r.kind), r);
            let w = without_kind(rs, r.kind);
            assert forall|a: int, b: int| 0 <= a < b < w.len() + 1 implies (#[trigger] w.push(r)[a]).kind
                != (#[trigger] w.push(r)[b]).kind by {
                if b == w.len() {
                    assert(w[a].kind != r.kind);
                }
            }
        }
        kept.push(r);
        self.reminders = kept;
        replaced
    }

    /// Handles a reminder request for `kind`, to go to `data`, at time `now`: a request with a
    /// cooldown starts the reminder (replacing the user's running one for that action); a
    /// request with no cooldown saves all running reminders.
    pub fn on_request(&mut self, kind: ReminderType, data: ReminderData, now: u64) -> (action: ReminderAction)
        ensures
            kind.1.0 != 0 ==> final(self)@ == without_kind(old(self)@, kind).push(
                SavedReminder { kind, start: now, data },
            ) && action == (ReminderAction::Start {
                replaced: reminder_of(old(self)@, kind),
                start: SavedReminder { kind, start: now, data },
            }),
            distinct_kinds(final(self)@),
            kind.1.0 == 0 ==> final(self)@ == old(self)@ && match action {
                ReminderAction::Save { contents, count } => contents@ == serialized(old(self)@) && count
                    == old(self)@.len(),
                _ => false,
            },
    {
        if kind.1.0 != 0 {
            let start = SavedReminder { kind, start: now, data };
            let replaced = self.insert(start);
            ReminderAction::Start { replaced, start }
        } else {
            proof {
                use_type_invariant(&*self);
            }
            let contents = serialize_reminders(&self.reminders);
            ReminderAction::Save { contents, count: self.reminders.len() }
        }
    }
}

/// Law: after a request that starts a reminder, the running reminder of that user and action is
/// the new one, and no two running reminders are for the same user and action.
pub proof fn law_request_replaces(rs: Seq<SavedReminder>, r: SavedReminder)
    requires
        distinct_kinds(rs),
    ensures
        reminder_of(without_kind(rs, r.kind).push(r), r.kind) == Some(r),
        distinct_kinds(without_kind(rs, r.kind).push(r)),
{
    lemma_without_kind(rs, r.kind);
    lemma_reminder_of_push(without_kind(rs, r.kind), r);
    let w = without_kind(rs, r.kind);
    assert forall|a: int, b: int| 0 <= a < b < w.len() + 1 implies (#[trigger] w.push(r)[a]).kind != (
    #[trigger] w.push(r)[b]).kind by {
        if b == w.len() {
            assert(w[a].kind != r.kind);
        }
    }
}


/// The text of a due reminder: as a direct message it names the channel, in the channel it
/// mentions the user.
pub open spec fn reminder_text(kind: ReminderType, data: ReminderData) -> Seq<char> {
    if data.1 {
        REMINDER_EMOJI@ + " You can now **"@ + name_of(kind.1) + "**! <#"@ + decimal(data.0 as nat) + ">"@
    } else {
        REMINDER_EMOJI@ + " <@"@ + decimal(kind.0 as nat) + "> you can now **"@ + name_of(kind.1) + "**!"@
    }
}

/// The text of a due reminder (see [`reminder_text`]).
pub fn reminder_message(kind: ReminderType, data: ReminderData) -> (r: String)
    ensures
        r@ == reminder_text(kind, data),
{
    let mut out: Vec<char> = Vec::new();
    push_str(&mut out, REMINDER_EMOJI);
    if data.1 {
        push_str(&mut out, " You can now **");
        push_str(&mut out, get_name(kind.1).as_str());
        push_str(&mut out, "**! <#");
        push_chars(&mut out, &decimal_chars(data.0 as u128));
        push_str(&mut out, ">");
    } else {
        push_str(&mut out, " <@");
        push_chars(&mut out, &decimal_chars(kind.0 as u128));
        push_str(&mut out, "> you can now **");
        push_str(&mut out, get_name(kind.1).as_str());
        push_str(&mut out, "**!");
    }
    assert(out@ =~= reminder_text(kind, data));
    string_of(&out)
}

/// The status text after a start that recovered `count` reminders.
pub open spec fn wake_text(count: nat) -> Seq<char> {
    "**Nori woke up!** <a:angury:1090035662037725295>\n\n> Recovered **"@ + decimal(count) + "** reminders."@
}

/// The status text before saving `count` reminders.
pub open spec fn sleep_text(count: nat) -> Seq<char> {
    "**Nori is preparing to sleep** <:sleep:1090035329555234917>\n\n> Attempting to save **"@ + decimal(count)
        + "** reminders..."@
}

pub fn wake_message(count: usize) -> (r: String)
    ensures
        r@ == wake_text(count as nat),
{
    let mut out: Vec<char> = Vec::new();
    push_str(&mut out, "**Nori woke up!** <a:angury:1090035662037725295>\n\n> Recovered **");
    push_chars(&mut out, &decimal_chars(count as u128));
    push_str(&mut out, "** reminders.");
    assert(out@ =~= wake_text(count as nat));
    string_of(&out)
}

pub fn sleep_message(count: usize) -> (r: String)
    ensures
        r@ == sleep_text(count as nat),
{
    let mut out: Vec<char> = Vec::new();
    push_str(&mut out, "**Nori is preparing to sleep** <:sleep:1090035329555234917>\n\n> Attempting to save **");
    push_chars(&mut out, &decimal_chars(count as u128));
    push_str(&mut out, "** reminders...");
    assert(out@ =~= sleep_text(count as nat));
    string_of(&out)
}

} // verus!
