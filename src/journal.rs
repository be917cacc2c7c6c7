use vstd::prelude::*;

use crate::entry::{
    entries_with, records_from, strings_view, time_le, time_le_exec, Entry, EntryTime, EntryView,
};

verus! {

broadcast use vstd::seq_lib::group_to_multiset_ensures;

/// The views of a sequence of records.
pub open spec fn entry_views(v: Seq<Entry>) -> Seq<EntryView> {
    v.map_values(|e: Entry| e@)
}

/// Records in ascending order of time.
pub open spec fn sorted_by_time(v: Seq<EntryView>) -> bool {
    forall|i: int, j: int| 0 <= i < j < v.len() ==> time_le(#[trigger] v[i].time, #[trigger] v[j].time)
}

/// The records of `s` at time `t`, in their order in `s`.
pub open spec fn at_time(s: Seq<EntryView>, t: EntryTime) -> Seq<EntryView> {
    s.filter(|e: EntryView| e.time == t)
}

/// Records at one time keep their order: `r` holds the records of each time
/// in the order that `v` holds them.
pub open spec fn keeps_order_of_equals(r: Seq<EntryView>, v: Seq<EntryView>) -> bool {
    forall|t: EntryTime| #[trigger] at_time(r, t) == at_time(v, t)
}

proof fn lemma_at_time_push(s: Seq<EntryView>, e: EntryView, t: EntryTime)
    ensures
        at_time(s.push(e), t) == (if e.time == t {
            at_time(s, t).push(e)
        } else {
            at_time(s, t)
        }),
{
    reveal(Seq::filter);
    assert(s.push(e).drop_last() =~= s);
}

proof fn lemma_at_time_none(s: Seq<EntryView>, t: EntryTime)
    requires
        forall|i: int| 0 <= i < s.len() ==> (#[trigger] s[i]).time != t,
    ensures
        at_time(s, t) == Seq::<EntryView>::empty(),
    decreases s.len(),
{
    reveal(Seq::filter);
    if s.len() > 0 {
        lemma_at_time_none(s.drop_last(), t);
    }
}

/// Inserting `e` before records whose times all differ from its own puts it
/// last among the records of its time.
proof fn lemma_at_time_insert(s: Seq<EntryView>, k: int, e: EntryView, t: EntryTime)
    requires
        0 <= k <= s.len(),
        forall|i: int| k <= i < s.len() ==> (#[trigger] s[i]).time != e.time,
    ensures
        at_time(s.insert(k, e), t) == (if e.time == t {
            at_time(s, t).push(e)
        } else {
            at_time(s, t)
        }),
{
    let a = s.subrange(0, k);
    let b = s.subrange(k, s.len() as int);
    let p = |x: EntryView| x.time == t;
    assert(s.insert(k, e) =~= a.push(e) + b);
    assert(s =~= a + b);
    Seq::filter_distributes_over_add(a.push(e), b, p);
    Seq::filter_distributes_over_add(a, b, p);
    lemma_at_time_push(a, e, t);
    if e.time == t {
        assert forall|i: int| 0 <= i < b.len() implies (#[trigger] b[i]).time != t by {
            assert(b[i] == s[k + i]);
        }
        lemma_at_time_none(b, t);
        assert(at_time(a, t) + at_time(b, t) =~= at_time(a, t));
        assert(at_time(a, t).push(e) + at_time(b, t) =~= at_time(a, t).push(e));
    }
}

/// A named journal: its records, in ascending order of time.
#[derive(Debug)]
pub struct Journal {
    pub entries: Vec<Entry>,
    pub name: String,
}

/// The records of `v` in ascending order of time.
pub fn sort_by_time(v: Vec<Entry>) -> (r: Vec<Entry>)
    ensures
        sorted_by_time(entry_views(r@)),
        entry_views(r@).to_multiset() == entry_views(v@).to_multiset(),
        keeps_order_of_equals(entry_views(r@), entry_views(v@)),
{
    let mut out: Vec<Entry> = Vec::new();
    let mut rest = v;
    let ghost orig = entry_views(rest@);
    let ghost taken: Seq<EntryView> = Seq::empty();
    proof {
        assert(entry_views(out@) =~= Seq::<EntryView>::empty());
        assert(orig =~= taken + entry_views(rest@));
        assert forall|t: EntryTime| #[trigger] at_time(entry_views(out@), t) == at_time(taken, t) by {
            reveal(Seq::filter);
        }
    }
    while rest.len() > 0
        invariant
            sorted_by_time(entry_views(out@)),
            entry_views(out@).to_multiset() == taken.to_multiset(),
            keeps_order_of_equals(entry_views(out@), taken),
            orig == taken + entry_views(rest@),
        decreases rest@.len(),
    {
        let ghost rest0 = entry_views(rest@);
        let e = rest.remove(0);
        let ghost ev = e@;
        let mut k: usize = 0;
        while k < out.len() && time_le_exec(&out[k].time, &e.time)
            invariant
                k <= out@.len(),
                forall|i: int| 0 <= i < k ==> time_le(#[trigger] out@[i].time, e.time),
            decreases out@.len() - k,
        {
            k = k + 1;
        }
        let ghost before = entry_views(out@);
        out.insert(k, e);
        proof {
            assert(entry_views(out@) =~= before.insert(k as int, ev));
            assert(sorted_by_time(entry_views(out@))) by {
                let w = entry_views(out@);
                assert forall|i: int, j: int| 0 <= i < j < w.len() implies time_le(#[trigger] w[i].time, #[trigger] w[j].time) by {
                    if j == k {
                        assert(w[i] == before[i]);
                    } else if i == k {
                        assert(w[j] == before[j - 1]);
                        if k < before.len() {
                            assert(!time_le(before[k as int].time, ev.time));
                            if j - 1 > k {
                                assert(time_le(before[k as int].time, before[j - 1].time));
                            }
                        }
                    } else if i < k && j > k {
                        assert(w[i] == before[i]);
                        assert(w[j] == before[j - 1]);
                    } else if j < k {
                        assert(w[i] == before[i] && w[j] == before[j]);
                    } else {
                        assert(w[i] == before[i - 1] && w[j] == before[j - 1]);
                    }
                }
            }
            assert forall|i: int| k <= i < before.len() implies (#[trigger] before[i]).time != ev.time by {
                assert(!time_le(before[k as int].time, ev.time));
                if i > k {
                    assert(time_le(before[k as int].time, before[i].time));
                }
            }
            assert forall|t: EntryTime| #[trigger] at_time(entry_views(out@), t) == at_time(taken.push(ev), t) by {
                lemma_at_time_insert(before, k as int, ev, t);
                lemma_at_time_push(taken, ev, t);
            }
            assert(rest0[0] == ev);
            assert(entry_views(rest@) =~= rest0.drop_first());
            assert(taken.push(ev) + entry_views(rest@) =~= taken + rest0);
            taken = taken.push(ev);
        }
    }
    proof {
        assert(orig =~= taken);
    }
    out
}

impl Journal {
    fn sort(&mut self)
        ensures
            final(self).name == old(self).name,
            sorted_by_time(entry_views(final(self).entries@)),
            entry_views(final(self).entries@).to_multiset() == entry_views(old(self).entries@).to_multiset(),
            keeps_order_of_equals(entry_views(final(self).entries@), entry_views(old(self).entries@)),
    {
        let mut v: Vec<Entry> = Vec::new();
        std::mem::swap(&mut v, &mut self.entries);
        let mut sorted = sort_by_time(v);
        std::mem::swap(&mut sorted, &mut self.entries);
    }

    /// The journal `name` whose file holds `lines`, with the compiled-in time
    /// format `%F %r` and tag symbols `#@`.
    pub fn from_lines(name: &str, lines: Vec<String>) -> (r: Journal)
        ensures
            r.name@ == name@,
            sorted_by_time(entry_views(r.entries@)),
            entry_views(r.entries@).to_multiset() == records_from(
                strings_view(lines@),
                0,
                "%F %r"@,
                "#@"@,
            ).to_multiset(),
            keeps_order_of_equals(
                entry_views(r.entries@),
                records_from(strings_view(lines@), 0, "%F %r"@, "#@"@),
            ),
    {
        Journal::from_lines_with(name, lines, "%F %r", "#@")
    }

    /// The journal `name` whose file holds `lines`: every record that reads,
    /// with times in format `timeformat` and tags marked by `tagsymbols`, in
    /// ascending order of time; records of equal time keep their order.
    pub fn from_lines_with(name: &str, lines: Vec<String>, timeformat: &str, tagsymbols: &str) -> (r: Journal)
        ensures
            r.name@ == name@,
            sorted_by_time(entry_views(r.entries@)),
            entry_views(r.entries@).to_multiset() == records_from(
                strings_view(lines@),
                0,
                timeformat@,
                tagsymbols@,
            ).to_multiset(),
            keeps_order_of_equals(
                entry_views(r.entries@),
                records_from(strings_view(lines@), 0, timeformat@, tagsymbols@),
            ),
    {
        let ghost ls = strings_view(lines@);
        let mut it = entries_with(lines, timeformat, tagsymbols);
        let mut out: Vec<Entry> = Vec::new();
        proof {
            assert(entry_views(out@) =~= Seq::<EntryView>::empty());
        }
        while it.pos < it.lines.len()
            invariant
                ls == strings_view(it.lines@),
                ls == strings_view(lines@),
                it.pos <= it.lines@.len(),
                it.timeformat@ == timeformat@,
                it.tagsymbols@ == tagsymbols@,
                entry_views(out@) + records_from(ls, it.pos as int, timeformat@, tagsymbols@) == records_from(ls, 0, timeformat@, tagsymbols@),
            decreases it.lines@.len() - it.pos,
        {
            let ghost p = it.pos as int;
            let ghost before = entry_views(out@);
            let next = it.next();
            match next {
                Some(e) => {
                    proof {
                        crate::entry::lemma_next_record_bounds(ls, p, timeformat@, tagsymbols@);
                        assert(entry_views(out@.push(e)) =~= before.push(e@));
                    }
                    out.push(e);
                    proof {
                        assert(before + records_from(ls, p, timeformat@, tagsymbols@) =~= entry_views(out@) + records_from(ls, it.pos as int, timeformat@, tagsymbols@));
                    }
                },
                None => {
                    proof {
                        assert(records_from(ls, p, timeformat@, tagsymbols@) =~= Seq::<EntryView>::empty());
                        assert(before =~= before + records_from(ls, p, timeformat@, tagsymbols@));
                    }
                    assert(entry_views(out@) == records_from(ls, 0, timeformat@, tagsymbols@));
                    let mut journal = Journal { entries: out, name: String::from_str(name) };
                    journal.sort();
                    return journal;
                },
            }
        }
        proof {
            assert(records_from(ls, it.pos as int, timeformat@, tagsymbols@) =~= Seq::<EntryView>::empty());
            assert(entry_views(out@) =~= entry_views(out@) + records_from(ls, it.pos as int, timeformat@, tagsymbols@));
        }
        let mut journal = Journal { entries: out, name: String::from_str(name) };
        journal.sort();
        journal
    }
}

} // verus!
