//! Bookmarks: pages remembered under a character or under a name.

use vstd::prelude::*;

verus! {

/// Whether no key occurs twice in `entries`.
pub open spec fn keys_distinct<K>(entries: Seq<(K, usize)>) -> bool {
    forall|i: int, j: int|
        0 <= i < j < entries.len() ==> (#[trigger] entries[i]).0 != (#[trigger] entries[j]).0
}

/// Whether `entries` holds `key`.
pub open spec fn holds_key<K>(entries: Seq<(K, usize)>, key: K) -> bool {
    exists|i: int| 0 <= i < entries.len() && (#[trigger] entries[i]).0 == key
}

/// The marks that `entries` stands for.
pub open spec fn marks_of<K>(entries: Seq<(K, usize)>) -> Map<K, usize> {
    Map::new(
        |k: K| holds_key(entries, k),
        |k: K| entries[choose|i: int| 0 <= i < entries.len() && (#[trigger] entries[i]).0 == k].1,
    )
}

/// The marks of `marks` that point below `page_count`.
pub open spec fn marks_below<K>(marks: Map<K, usize>, page_count: usize) -> Map<K, usize> {
    Map::new(|k: K| marks.contains_key(k) && marks[k] < page_count, |k: K| marks[k])
}

/// With distinct keys every entry is what its key maps to.
pub proof fn lemma_entry_is_mark<K>(entries: Seq<(K, usize)>, i: int)
    requires
        keys_distinct(entries),
        0 <= i < entries.len(),
    ensures
        marks_of(entries).contains_key(entries[i].0),
        marks_of(entries)[entries[i].0] == entries[i].1,
{
    let k = entries[i].0;
    let c = choose|c: int| 0 <= c < entries.len() && (#[trigger] entries[c]).0 == k;
    if c < i {
        assert(entries[c].0 != entries[i].0);
    } else if i < c {
        assert(entries[i].0 != entries[c].0);
    }
}

/// Dropping the entry at `at` and putting `(key, page)` last gives the
/// marks with `key` set to `page`, where `at` held `key`.
proof fn lemma_replace<K>(entries: Seq<(K, usize)>, at: int, key: K, page: usize)
    requires
        keys_distinct(entries),
        0 <= at < entries.len(),
        entries[at].0 == key,
    ensures
        keys_distinct(entries.remove(at).push((key, page))),
        marks_of(entries.remove(at).push((key, page))) =~= marks_of(entries).insert(key, page),
{
    let rest = entries.remove(at);
    let out = rest.push((key, page));
    assert forall|i: int, j: int| 0 <= i < j < out.len() implies (#[trigger] out[i]).0 != (
    #[trigger] out[j]).0 by {
        let si = if i < at { i } else { i + 1 };
        assert(out[i] == entries[si]);
        if j < rest.len() {
            let sj = if j < at { j } else { j + 1 };
            assert(out[j] == entries[sj]);
        } else {
            if si < at {
                assert(entries[si].0 != entries[at].0);
            } else {
                assert(entries[at].0 != entries[si].0);
            }
        }
    }
    assert forall|k: K| marks_of(out).contains_key(k) == marks_of(entries).insert(
        key,
        page,
    ).contains_key(k) by {
        if holds_key(out, k) {
            let i = choose|i: int| 0 <= i < out.len() && (#[trigger] out[i]).0 == k;
            if i < rest.len() {
                let si = if i < at { i } else { i + 1 };
                assert(entries[si].0 == k);
            }
        }
        if k == key {
            assert(out[out.len() - 1].0 == k);
        } else if holds_key(entries, k) {
            let i = choose|i: int| 0 <= i < entries.len() && (#[trigger] entries[i]).0 == k;
            let ri = if i < at { i } else { i - 1 };
            assert(out[ri].0 == k);
        }
    }
    assert forall|k: K| marks_of(out).contains_key(k) implies marks_of(out)[k] == marks_of(
        entries,
    ).insert(key, page)[k] by {
        let i = choose|i: int| 0 <= i < out.len() && (#[trigger] out[i]).0 == k;
        lemma_entry_is_mark(out, i);
        if i < rest.len() {
            let si = if i < at { i } else { i + 1 };
            assert(out[i] == entries[si]);
            lemma_entry_is_mark(entries, si);
            if si < at {
                assert(entries[si].0 != entries[at].0);
            } else {
                assert(entries[at].0 != entries[si].0);
            }
        }
    }
}

/// Putting a new key last gives the marks with that key set.
proof fn lemma_append<K>(entries: Seq<(K, usize)>, key: K, page: usize)
    requires
        keys_distinct(entries),
        !holds_key(entries, key),
    ensures
        keys_distinct(entries.push((key, page))),
        marks_of(entries.push((key, page))) =~= marks_of(entries).insert(key, page),
{
    let out = entries.push((key, page));
    assert forall|i: int, j: int| 0 <= i < j < out.len() implies (#[trigger] out[i]).0 != (
    #[trigger] out[j]).0 by {
        assert(out[i] == entries[i]);
        if j < entries.len() {
            assert(out[j] == entries[j]);
        }
    }
    assert forall|k: K| marks_of(out).contains_key(k) == marks_of(entries).insert(
        key,
        page,
    ).contains_key(k) by {
        if holds_key(out, k) {
            let i = choose|i: int| 0 <= i < out.len() && (#[trigger] out[i]).0 == k;
            if i < entries.len() {
                assert(entries[i].0 == k);
            }
        }
        if k == key {
            assert(out[out.len() - 1].0 == k);
        } else if holds_key(entries, k) {
            let i = choose|i: int| 0 <= i < entries.len() && (#[trigger] entries[i]).0 == k;
            assert(out[i].0 == k);
        }
    }
    assert forall|k: K| marks_of(out).contains_key(k) implies marks_of(out)[k] == marks_of(
        entries,
    ).insert(key, page)[k] by {
        let i = choose|i: int| 0 <= i < out.len() && (#[trigger] out[i]).0 == k;
        lemma_entry_is_mark(out, i);
        if i < entries.len() {
            assert(out[i] == entries[i]);
            lemma_entry_is_mark(entries, i);
        }
    }
}

/// Keeping, in order, the entries that point below `page_count` gives
/// the marks below `page_count`.
proof fn lemma_kept<K>(entries: Seq<(K, usize)>, kept: Seq<(K, usize)>, page_count: usize)
    requires
        keys_distinct(entries),
        keys_distinct(kept),
        forall|j: int| 0 <= j < kept.len() ==> entries.contains(#[trigger] kept[j]) && kept[j].1 < page_count,
        forall|i: int|
            0 <= i < entries.len() && (#[trigger] entries[i]).1 < page_count ==> kept.contains(
                entries[i],
            ),
    ensures
        marks_of(kept) =~= marks_below(marks_of(entries), page_count),
{
    let want = marks_below(marks_of(entries), page_count);
    assert forall|k: K| marks_of(kept).contains_key(k) == want.contains_key(k) by {
        if holds_key(kept, k) {
            let j = choose|j: int| 0 <= j < kept.len() && (#[trigger] kept[j]).0 == k;
            assert(entries.contains(kept[j]));
            let i = choose|i: int| 0 <= i < entries.len() && entries[i] == kept[j];
            lemma_entry_is_mark(entries, i);
        }
        if want.contains_key(k) {
            let i = choose|i: int| 0 <= i < entries.len() && (#[trigger] entries[i]).0 == k;
            lemma_entry_is_mark(entries, i);
            assert(kept.contains(entries[i]));
            let j = choose|j: int| 0 <= j < kept.len() && kept[j] == entries[i];
            assert(kept[j].0 == k);
        }
    }
    assert forall|k: K| marks_of(kept).contains_key(k) implies marks_of(kept)[k] == want[k] by {
        let j = choose|j: int| 0 <= j < kept.len() && (#[trigger] kept[j]).0 == k;
        lemma_entry_is_mark(kept, j);
        assert(entries.contains(kept[j]));
        let i = choose|i: int| 0 <= i < entries.len() && entries[i] == kept[j];
        lemma_entry_is_mark(entries, i);
    }
}

/// Pages remembered under single characters.
#[derive(Debug)]
pub struct CharMarks {
    entries: Vec<(char, usize)>,
}

impl View for CharMarks {
    type V = Map<char, usize>;

    closed spec fn view(&self) -> Map<char, usize> {
        marks_of(self.entries@)
    }
}

impl Clone for CharMarks {
    fn clone(&self) -> (r: Self)
        ensures
            r@ == self@,
    {
        CharMarks { entries: self.to_vec() }
    }
}

impl CharMarks {
    #[verifier::type_invariant]
    spec fn distinct(self) -> bool {
        keys_distinct(self.entries@)
    }

    /// No marks.
    pub fn new() -> (r: Self)
        ensures
            r@ == Map::<char, usize>::empty(),
    {
        let r = CharMarks { entries: Vec::new() };
        assert(r@ =~= Map::<char, usize>::empty());
        r
    }

    /// How many marks there are.
    pub fn len(&self) -> (r: usize)
        ensures
            r == self.count(),
    {
        self.entries.len()
    }

    /// How many marks there are.
    pub closed spec fn count(&self) -> nat {
        self.entries@.len()
    }

    fn position(&self, key: char) -> (r: Option<usize>)
        ensures
            match r {
                Some(i) => i < self.entries@.len() && self.entries@[i as int].0 == key,
                None => !holds_key(self.entries@, key),
            },
    {
        let mut i: usize = 0;
        while i < self.entries.len()
            invariant
                i <= self.entries.len(),
                forall|k: int| 0 <= k < i ==> (#[trigger] self.entries@[k]).0 != key,
            decreases self.entries.len() - i,
        {
            if self.entries[i].0 == key {
                return Some(i);
            }
            i += 1;
        }
        None
    }

    /// The page remembered under `key`.
    pub fn get(&self, key: char) -> (r: Option<usize>)
        ensures
            r == if self@.contains_key(key) {
                Some(self@[key])
            } else {
                None
            },
    {
        proof {
            use_type_invariant(self);
        }
        match self.position(key) {
            Some(i) => {
                proof {
                    lemma_entry_is_mark(self.entries@, i as int);
                }
                Some(self.entries[i].1)
            },
            None => None,
        }
    }

    /// Remembers `page` under `key`, in place of what was there.
    pub fn insert(&mut self, key: char, page: usize)
        ensures
            final(self)@ == old(self)@.insert(key, page),
    {
        proof {
            use_type_invariant(&*self);
        }
        let found = self.position(key);
        let mut entries: Vec<(char, usize)> = Vec::new();
        core::mem::swap(&mut entries, &mut self.entries);
        let ghost before = entries@;
        match found {
            Some(i) => {
                entries.remove(i);
                proof {
                    lemma_replace(before, i as int, key, page);
                }
            },
            None => {
                proof {
                    lemma_append(before, key, page);
                }
            },
        }
        entries.push((key, page));
        self.entries = entries;
    }

    /// Forgets the marks that point at or beyond `page_count`.
    pub fn retain_below(&mut self, page_count: usize)
        ensures
            final(self)@ == marks_below(old(self)@, page_count),
    {
        proof {
            use_type_invariant(&*self);
        }
        let mut kept: Vec<(char, usize)> = Vec::new();
        let mut i: usize = 0;
        while i < self.entries.len()
            invariant
                i <= self.entries.len(),
                keys_distinct(self.entries@),
                keys_distinct(kept@),
                forall|j: int|
                    0 <= j < kept.len() ==> kept[j].1 < page_count && exists|s: int|
                        0 <= s < i && self.entries@[s] == #[trigger] kept[j],
                forall|s: int|
                    0 <= s < i && (#[trigger] self.entries@[s]).1 < page_count ==> kept@.contains(
                        self.entries@[s],
                    ),
            decreases self.entries.len() - i,
        {
            let entry = self.entries[i];
            let ghost before = kept@;
            if entry.1 < page_count {
                kept.push(entry);
                proof {
                    assert forall|a: int, b: int| 0 <= a < b < kept.len() implies (
                    #[trigger] kept@[a]).0 != (#[trigger] kept@[b]).0 by {
                        assert(kept@[a] == before[a]);
                        if b < before.len() {
                            assert(kept@[b] == before[b]);
                        } else {
                            let s = choose|s: int| 0 <= s < i && self.entries@[s] == before[a];
                            assert(self.entries@[s].0 != self.entries@[i as int].0);
                        }
                    }
                    assert forall|j: int| 0 <= j < kept.len() implies kept[j].1 < page_count
                        && exists|s: int|
                        0 <= s < i + 1 && self.entries@[s] == #[trigger] kept[j] by {
                        if j < before.len() {
                            assert(kept@[j] == before[j]);
                            let s = choose|s: int| 0 <= s < i && self.entries@[s] == before[j];
                            assert(self.entries@[s] == kept[j]);
                        } else {
                            assert(self.entries@[i as int] == kept[j]);
                        }
                    }
                    assert forall|s: int|
                        0 <= s < i + 1 && (#[trigger] self.entries@[s]).1
                            < page_count implies kept@.contains(self.entries@[s]) by {
                        if s < i {
                            assert(before.contains(self.entries@[s]));
                            let j = choose|j: int| 0 <= j < before.len() && before[j] == self.entries@[s];
                            assert(kept@[j] == self.entries@[s]);
                        } else {
                            assert(kept@[kept.len() - 1] == self.entries@[s]);
                        }
                    }
                }
            }
            i += 1;
        }
        proof {
            assert forall|j: int| 0 <= j < kept.len() implies self.entries@.contains(
                #[trigger] kept@[j],
            ) && kept@[j].1 < page_count by {
                let s = choose|s: int| 0 <= s < i && self.entries@[s] == kept[j];
                assert(self.entries@[s] == kept@[j]);
            }
            lemma_kept(self.entries@, kept@, page_count);
        }
        self.entries = kept;
    }

    /// Every mark, oldest first.
    pub fn to_vec(&self) -> (r: Vec<(char, usize)>)
        ensures
            marks_of(r@) == self@,
            keys_distinct(r@),
    {
        proof {
            use_type_invariant(self);
        }
        let mut out: Vec<(char, usize)> = Vec::new();
        let mut i: usize = 0;
        while i < self.entries.len()
            invariant
                i <= self.entries.len(),
                out@ == self.entries@.take(i as int),
            decreases self.entries.len() - i,
        {
            out.push(self.entries[i]);
            i += 1;
            assert(out@ =~= self.entries@.take(i as int));
        }
        assert(out@ =~= self.entries@);
        out
    }
}

/// The names and pages of `entries`.
pub open spec fn named_entries(entries: Seq<(String, usize)>) -> Seq<(Seq<char>, usize)> {
    entries.map_values(|e: (String, usize)| (e.0@, e.1))
}

/// Pages remembered under names.
#[derive(Debug)]
pub struct NamedMarks {
    entries: Vec<(String, usize)>,
}

impl View for NamedMarks {
    type V = Map<Seq<char>, usize>;

    closed spec fn view(&self) -> Map<Seq<char>, usize> {
        marks_of(named_entries(self.entries@))
    }
}

impl Clone for NamedMarks {
    fn clone(&self) -> (r: Self)
        ensures
            r@ == self@,
    {
        NamedMarks { entries: self.to_vec() }
    }
}

impl NamedMarks {
    #[verifier::type_invariant]
    spec fn distinct(self) -> bool {
        keys_distinct(named_entries(self.entries@))
    }

    /// No marks.
    pub fn new() -> (r: Self)
        ensures
            r@ == Map::<Seq<char>, usize>::empty(),
    {
        let r = NamedMarks { entries: Vec::new() };
        assert(r@ =~= Map::<Seq<char>, usize>::empty());
        r
    }

    /// How many marks there are.
    pub fn len(&self) -> (r: usize)
        ensures
            r == self.count(),
    {
        self.entries.len()
    }

    /// How many marks there are.
    pub closed spec fn count(&self) -> nat {
        self.entries@.len()
    }

    fn position(&self, name: &str) -> (r: Option<usize>)
        ensures
            match r {
                Some(i) => i < self.entries@.len() && named_entries(self.entries@)[i as int].0
                    == name@,
                None => !holds_key(named_entries(self.entries@), name@),
            },
    {
        let mut i: usize = 0;
        while i < self.entries.len()
            invariant
                i <= self.entries.len(),
                forall|k: int|
                    0 <= k < i ==> (#[trigger] named_entries(self.entries@)[k]).0 != name@,
            decreases self.entries.len() - i,
        {
            if crate::unicode::same_text(self.entries[i].0.as_str(), name) {
                return Some(i);
            }
            i += 1;
        }
        None
    }

    /// The page remembered under `name`.
    pub fn get(&self, name: &str) -> (r: Option<usize>)
        ensures
            r == if self@.contains_key(name@) {
                Some(self@[name@])
            } else {
                None
            },
    {
        proof {
            use_type_invariant(self);
        }
        match self.position(name) {
            Some(i) => {
                proof {
                    lemma_entry_is_mark(named_entries(self.entries@), i as int);
                }
                Some(self.entries[i].1)
            },
            None => None,
        }
    }

    /// Remembers `page` under `name`, in place of what was there.
    pub fn insert(&mut self, name: String, page: usize)
        ensures
            final(self)@ == old(self)@.insert(name@, page),
    {
        proof {
            use_type_invariant(&*self);
        }
        let found = self.position(name.as_str());
        let mut entries: Vec<(String, usize)> = Vec::new();
        core::mem::swap(&mut entries, &mut self.entries);
        let ghost before = named_entries(entries@);
        match found {
            Some(i) => {
                entries.remove(i);
                proof {
                    assert(named_entries(entries@) =~= before.remove(i as int));
                    lemma_replace(before, i as int, name@, page);
                }
            },
            None => {
                proof {
                    lemma_append(before, name@, page);
                }
            },
        }
        let ghost mid = named_entries(entries@);
        entries.push((name, page));
        assert(named_entries(entries@) =~= mid.push((name@, page)));
        self.entries = entries;
    }

    /// Forgets the marks that point at or beyond `page_count`.
    pub fn retain_below(&mut self, page_count: usize)
        ensures
            final(self)@ == marks_below(old(self)@, page_count),
    {
        proof {
            use_type_invariant(&*self);
        }
        let mut source: Vec<(String, usize)> = Vec::new();
        core::mem::swap(&mut source, &mut self.entries);
        let ghost all = named_entries(source@);
        let ghost total = source.len();
        let mut kept: Vec<(String, usize)> = Vec::new();
        // Walks the marks newest first, so that each can be moved out.
        while source.len() > 0
            invariant
                source.len() <= total,
                total == all.len(),
                keys_distinct(all),
                named_entries(source@) == all.take(source.len() as int),
                keys_distinct(named_entries(kept@)),
                forall|j: int|
                    0 <= j < kept.len() ==> (#[trigger] named_entries(kept@)[j]).1 < page_count
                        && exists|s: int|
                        source.len() <= s < total && all[s] == named_entries(kept@)[j],
                forall|s: int|
                    source.len() <= s < total && (#[trigger] all[s]).1 < page_count
                        ==> named_entries(kept@).contains(all[s]),
            decreases source.len(),
        {
            let ghost before = named_entries(kept@);
            let ghost at = source.len() - 1;
            let ghost src_before = named_entries(source@);
            let entry = source.pop().unwrap();
            proof {
                assert(named_entries(source@) =~= all.take(source.len() as int));
                assert(src_before[at] == all[at]);
                assert((entry.0@, entry.1) == all[at]);
            }
            if entry.1 < page_count {
                kept.push(entry);
                proof {
                    let now = named_entries(kept@);
                    assert(now =~= before.push(all[at]));
                    assert forall|a: int, b: int| 0 <= a < b < now.len() implies (#[trigger] now[a]).0
                        != (#[trigger] now[b]).0 by {
                        assert(now[a] == before[a]);
                        if b < before.len() {
                            assert(now[b] == before[b]);
                        } else {
                            let s = choose|s: int| at < s < total && all[s] == before[a];
                            assert(all[at].0 != all[s].0);
                        }
                    }
                    assert forall|j: int| 0 <= j < now.len() implies (#[trigger] now[j]).1
                        < page_count && exists|s: int| at <= s < total && all[s] == now[j] by {
                        if j < before.len() {
                            assert(now[j] == before[j]);
                            let s = choose|s: int| at < s < total && all[s] == before[j];
                            assert(all[s] == now[j]);
                        } else {
                            assert(all[at] == now[j]);
                        }
                    }
                    assert forall|s: int|
                        at <= s < total && (#[trigger] all[s]).1 < page_count implies now.contains(
                        all[s],
                    ) by {
                        if s > at {
                            assert(before.contains(all[s]));
                            let j = choose|j: int| 0 <= j < before.len() && before[j] == all[s];
                            assert(now[j] == all[s]);
                        } else {
                            assert(now[now.len() - 1] == all[s]);
                        }
                    }
                }
            }
        }
        proof {
            let now = named_entries(kept@);
            assert forall|j: int| 0 <= j < now.len() implies all.contains(#[trigger] now[j])
                && now[j].1 < page_count by {
                let s = choose|s: int| 0 <= s < total && all[s] == now[j];
                assert(all[s] == now[j]);
            }
            lemma_kept(all, now, page_count);
        }
        self.entries = kept;
    }

    /// Every mark's name and page.
    pub fn to_vec(&self) -> (r: Vec<(String, usize)>)
        ensures
            marks_of(named_entries(r@)) == self@,
            keys_distinct(named_entries(r@)),
    {
        proof {
            use_type_invariant(self);
        }
        let mut out: Vec<(String, usize)> = Vec::new();
        let mut i: usize = 0;
        while i < self.entries.len()
            invariant
                i <= self.entries.len(),
                named_entries(out@) == named_entries(self.entries@).take(i as int),
            decreases self.entries.len() - i,
        {
            let ghost before = named_entries(out@);
            let name = self.entries[i].0.clone();
            let page: usize = self.entries[i].1;
            assert(name@ == self.entries@[i as int].0@);
            out.push((name, page));
            assert(named_entries(out@) =~= before.push((name@, page)));
            assert(named_entries(self.entries@)[i as int] == (name@, page));
            i += 1;
            assert(named_entries(out@) =~= named_entries(self.entries@).take(i as int));
        }
        assert(named_entries(out@) =~= named_entries(self.entries@));
        out
    }
}

} // verus!
