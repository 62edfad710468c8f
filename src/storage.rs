//! Where received files go, and a store that keeps them in memory.

use vstd::prelude::*;

use crate::screen::{decimal_chars, push_decimal};
use crate::zsession::concat;

verus! {

/// Where received files go: files by name, one of them open at a time and written by
/// appending.
pub trait FileStorageHandler: Sized {
    /// The store's own invariant, which every operation keeps.
    spec fn inv(&self) -> bool;

    /// What the store holds under `name`.
    spec fn stored(&self, name: Seq<char>) -> Option<Seq<u8>>;

    /// The name of the open file, if one is open.
    spec fn current_name(&self) -> Option<Seq<char>>;

    /// What the open file holds; empty where no file is open.
    spec fn current_content(&self) -> Seq<u8>;

    /// The size that the sender announced for the open file.
    spec fn total_size(&self) -> nat;

    /// The invariant ties the open file to what is stored under its name; with none open,
    /// the current content is empty.
    proof fn lemma_consistent(&self)
        requires
            self.inv(),
        ensures
            match self.current_name() {
                Some(n) => self.stored(n) == Some(self.current_content()),
                None => self.current_content() == Seq::<u8>::empty(),
            },
    ;

    /// Opens `file_name` as a new, empty file of announced size `total_size`; a file of
    /// that name is replaced, the others are kept.
    fn open_file(&mut self, file_name: &str, total_size: usize)
        requires
            old(self).inv(),
        ensures
            final(self).inv(),
            match final(self).current_name() {
                Some(n) => final(self).stored(n) == Some(final(self).current_content()),
                None => final(self).current_content() == Seq::<u8>::empty(),
            },
            final(self).current_name() == Some(file_name@),
            final(self).current_content() == Seq::<u8>::empty(),
            final(self).total_size() == total_size,
            forall|n: Seq<char>|
                Some(n) != Some(file_name@) ==> #[trigger] final(self).stored(n) == old(self).stored(n),
    ;

    /// Appends to the open file; with none open nothing changes.
    fn append(&mut self, data: &[u8])
        requires
            old(self).inv(),
        ensures
            final(self).inv(),
            match final(self).current_name() {
                Some(n) => final(self).stored(n) == Some(final(self).current_content()),
                None => final(self).current_content() == Seq::<u8>::empty(),
            },
            final(self).current_name() == old(self).current_name(),
            final(self).total_size() == old(self).total_size(),
            final(self).current_content() == (if old(self).current_name().is_some() {
                old(self).current_content() + data@
            } else {
                old(self).current_content()
            }),
            forall|n: Seq<char>|
                Some(n) != old(self).current_name() ==> #[trigger] final(self).stored(n) == old(self).stored(n),
    ;

    /// Closes the open file; what is stored stays.
    fn close(&mut self)
        requires
            old(self).inv(),
        ensures
            final(self).inv(),
            match final(self).current_name() {
                Some(n) => final(self).stored(n) == Some(final(self).current_content()),
                None => final(self).current_content() == Seq::<u8>::empty(),
            },
            final(self).current_name().is_none(),
            final(self).total_size() == 0,
            forall|n: Seq<char>| #[trigger] final(self).stored(n) == old(self).stored(n),
    ;

    fn current_file_name(&self) -> (r: Option<String>)
        ensures
            match r {
                Some(s) => self.current_name() == Some(s@),
                None => self.current_name().is_none(),
            },
    ;

    fn current_file_length(&self) -> (r: usize)
        ensures
            r == self.current_content().len(),
    ;

    /// Cuts or extends the open file to `size` bytes (a resume starts from there); with
    /// none open nothing changes.
    fn set_current_size_to(&mut self, size: usize)
        requires
            old(self).inv(),
        ensures
            final(self).inv(),
            match final(self).current_name() {
                Some(n) => final(self).stored(n) == Some(final(self).current_content()),
                None => final(self).current_content() == Seq::<u8>::empty(),
            },
            final(self).current_name() == old(self).current_name(),
            final(self).total_size() == old(self).total_size(),
            final(self).current_content() == (if old(self).current_name().is_some() {
                resized(old(self).current_content(), size as nat)
            } else {
                old(self).current_content()
            }),
            forall|n: Seq<char>|
                Some(n) != old(self).current_name() ==> #[trigger] final(self).stored(n) == old(self).stored(n),
    ;

    fn get_current_file_total_size(&self) -> (r: usize)
        ensures
            r == self.total_size(),
    ;
}

/// The name a received file is stored under at the `i`-th try: the sender's name (or
/// `new_file` where it sent none), and from the first try on that is taken, `.i` after it.
pub open spec fn download_name_spec(name: Seq<char>, i: u32) -> Seq<char> {
    let base = if name.len() == 0 { "new_file"@ } else { name };
    if i == 0 {
        base
    } else {
        base + "."@ + decimal_chars(i as nat)
    }
}

pub fn download_name(name: &str, i: u32) -> (r: String)
    ensures
        r@ == download_name_spec(name@, i),
{
    let mut r = if name.is_empty() {
        String::from_str("new_file")
    } else {
        String::from_str(name)
    };
    if i > 0 {
        r.append(".");
        push_decimal(&mut r, i);
    }
    r
}

/// A file written by appends: where each store in `states` is the one before it after
/// appending the matching chunk to its open file (as `append` ensures), starting from a
/// file just opened, the file holds the chunks one after another, and that is what is
/// stored under its name. So `n` blocks of one size give a file of `n` times that size.
pub proof fn lemma_appends_concatenate<S: FileStorageHandler>(
    states: Seq<S>,
    chunks: Seq<Seq<u8>>,
)
    requires
        states.len() == chunks.len() + 1,
        states[0].current_name().is_some(),
        states[0].current_content() == Seq::<u8>::empty(),
        forall|i: int|
            0 <= i < chunks.len() ==> (#[trigger] states[i + 1]).current_name()
                == states[i].current_name() && states[i + 1].current_content()
                == states[i].current_content() + chunks[i],
        states.last().inv(),
    ensures
        states.last().current_content() == concat(chunks),
        states.last().stored(states[0].current_name().unwrap()) == Some(concat(chunks)),
{
    lemma_appends_prefix(states, chunks);
    lemma_names_kept(states, chunks);
    states.last().lemma_consistent();
}

proof fn lemma_appends_prefix<S: FileStorageHandler>(states: Seq<S>, chunks: Seq<Seq<u8>>)
    requires
        states.len() == chunks.len() + 1,
        states[0].current_content() == Seq::<u8>::empty(),
        forall|i: int|
            0 <= i < chunks.len() ==> (#[trigger] states[i + 1]).current_content()
                == states[i].current_content() + chunks[i],
    ensures
        states.last().current_content() == concat(chunks),
    decreases chunks.len(),
{
    if chunks.len() == 0 {
        assert(concat(chunks) =~= Seq::<u8>::empty());
    } else {
        let k = chunks.len() - 1;
        assert forall|i: int| 0 <= i < k implies (#[trigger] states.drop_last()[i + 1]).current_content()
            == states.drop_last()[i].current_content() + chunks.drop_last()[i] by {
            assert(states.drop_last()[i + 1] == states[i + 1]);
        }
        lemma_appends_prefix(states.drop_last(), chunks.drop_last());
        assert(states[k + 1].current_content() == states[k].current_content() + chunks[k]);
    }
}

proof fn lemma_names_kept<S: FileStorageHandler>(states: Seq<S>, chunks: Seq<Seq<u8>>)
    requires
        states.len() == chunks.len() + 1,
        forall|i: int|
            0 <= i < chunks.len() ==> (#[trigger] states[i + 1]).current_name()
                == states[i].current_name() && states[i + 1].current_content()
                == states[i].current_content() + chunks[i],
    ensures
        states.last().current_name() == states[0].current_name(),
    decreases chunks.len(),
{
    if chunks.len() > 0 {
        let k = chunks.len() - 1;
        assert forall|i: int| 0 <= i < k implies (#[trigger] states.drop_last()[i + 1]).current_name()
            == states.drop_last()[i].current_name() && states.drop_last()[i + 1].current_content()
            == states.drop_last()[i].current_content() + chunks.drop_last()[i] by {
            assert(states.drop_last()[i + 1] == states[i + 1]);
        }
        lemma_names_kept(states.drop_last(), chunks.drop_last());
        assert(states[k + 1].current_name() == states[k].current_name());
    }
}

/// `s` cut to `n` bytes, or extended to `n` bytes with zeros.
pub open spec fn resized(s: Seq<u8>, n: nat) -> Seq<u8> {
    if n <= s.len() {
        s.take(n as int)
    } else {
        s + Seq::new((n - s.len()) as nat, |i: int| 0u8)
    }
}

/// The index of the last entry of `names` equal to `name`.
pub open spec fn find(names: Seq<Seq<char>>, name: Seq<char>) -> Option<int>
    decreases names.len(),
{
    if names.len() == 0 {
        None
    } else if names.last() == name {
        Some(names.len() - 1)
    } else {
        find(names.drop_last(), name)
    }
}

proof fn lemma_find(names: Seq<Seq<char>>, name: Seq<char>)
    ensures
        match find(names, name) {
            Some(i) => 0 <= i < names.len() && names[i] == name,
            None => forall|i: int| 0 <= i < names.len() ==> names[i] != name,
        },
    decreases names.len(),
{
    if names.len() > 0 {
        lemma_find(names.drop_last(), name);
        if names.last() != name {
            assert forall|i: int| 0 <= i < names.len() - 1 implies names[i] == names.drop_last()[i] by {}
        }
    }
}

/// A store that keeps files in memory, by name.
pub struct TestStorageHandler {
    files: Vec<(String, Vec<u8>)>,
    cur: Option<usize>,
    cur_file_size: usize,
}

impl TestStorageHandler {
    pub closed spec fn names(&self) -> Seq<Seq<char>> {
        self.files@.map_values(|e: (String, Vec<u8>)| e.0@)
    }

    /// What the store holds under `name`.
    pub closed spec fn file(&self, name: Seq<char>) -> Option<Seq<u8>> {
        match find(self.names(), name) {
            Some(i) => Some(self.files@[i].1@),
            None => None,
        }
    }

    /// The entry of the open file.
    pub closed spec fn cur_index(&self) -> Option<int> {
        match self.cur {
            Some(i) => if i < self.files@.len() {
                Some(i as int)
            } else {
                None
            },
            None => None,
        }
    }

    pub fn new() -> (r: Self)
        ensures
            r.inv(),
            r.current_content() == Seq::<u8>::empty(),
            forall|n: Seq<char>| #[trigger] r.stored(n).is_none(),
            r.current_name().is_none(),
            r.total_size() == 0,
    {
        let r = TestStorageHandler { files: Vec::new(), cur: None, cur_file_size: 0 };
        proof {
            assert(r.names() =~= Seq::<Seq<char>>::empty());
        }
        r
    }

    fn index_of(&self, name: &String) -> (r: Option<usize>)
        ensures
            match r {
                Some(i) => find(self.names(), name@) == Some(i as int) && i < self.files@.len(),
                None => find(self.names(), name@).is_none(),
            },
    {
        let mut found: Option<usize> = None;
        let mut i: usize = 0;
        while i < self.files.len()
            invariant
                i <= self.files@.len(),
                match found {
                    Some(j) => find(self.names().subrange(0, i as int), name@) == Some(j as int)
                        && j < i,
                    None => find(self.names().subrange(0, i as int), name@).is_none(),
                },
            decreases self.files@.len() - i,
        {
            proof {
                assert(self.names().subrange(0, i + 1).drop_last() =~= self.names().subrange(
                    0,
                    i as int,
                ));
            }
            if self.files[i].0 == *name {
                found = Some(i);
            }
            i += 1;
        }
        proof {
            assert(self.names().subrange(0, self.files@.len() as int) =~= self.names());
        }
        found
    }

    /// A copy of what the store holds under `name`.
    pub fn get_file(&self, name: &str) -> (r: Option<Vec<u8>>)
        ensures
            match r {
                Some(v) => self.stored(name@) == Some(v@),
                None => self.stored(name@).is_none(),
            },
    {
        let key = name.to_owned();
        match self.index_of(&key) {
            Some(i) => {
                let mut v: Vec<u8> = Vec::new();
                v.extend_from_slice(self.files[i].1.as_slice());
                proof {
                    assert(v@ =~= self.files@[i as int].1@);
                }
                Some(v)
            },
            None => None,
        }
    }
}

impl FileStorageHandler for TestStorageHandler {
    /// The open file is the last entry of its name.
    closed spec fn inv(&self) -> bool {
        match self.cur_index() {
            Some(i) => find(self.names(), self.files@[i].0@) == Some(i),
            None => true,
        }
    }

    closed spec fn stored(&self, name: Seq<char>) -> Option<Seq<u8>> {
        self.file(name)
    }

    closed spec fn current_name(&self) -> Option<Seq<char>> {
        match self.cur_index() {
            Some(i) => Some(self.files@[i].0@),
            None => None,
        }
    }

    closed spec fn current_content(&self) -> Seq<u8> {
        match self.cur_index() {
            Some(i) => self.files@[i].1@,
            None => Seq::empty(),
        }
    }

    closed spec fn total_size(&self) -> nat {
        self.cur_file_size as nat
    }

    proof fn lemma_consistent(&self) {
    }

    fn open_file(&mut self, file_name: &str, total_size: usize) {
        let key = file_name.to_owned();
        let ghost old_names = self.names();
        self.cur_file_size = total_size;
        match self.index_of(&key) {
            Some(i) => {
                proof {
                    lemma_find(old_names, key@);
                }
                let mut e: (String, Vec<u8>) = (String::new(), Vec::new());
                self.files.set_and_swap(i, &mut e);
                e.1 = Vec::new();
                self.files.set(i, e);
                self.cur = Some(i);
                proof {
                    assert(self.names() =~= old_names);
                    assert forall|n: Seq<char>| Some(n) != Some(key@) implies #[trigger] self.file(n)
                        == old(self).file(n) by {
                        lemma_find(old_names, n);
                        match find(old_names, n) {
                            Some(j) => {
                                assert(old_names[j] == n);
                                assert(old_names[i as int] == key@);
                                assert(j != i);
                                assert(self.files@[j] == old(self).files@[j]);
                            },
                            None => {},
                        }
                    }
                }
            },
            None => {
                let ghost len = self.files@.len();
                self.files.push((key, Vec::new()));
                self.cur = Some(self.files.len() - 1);
                proof {
                    assert(self.names().drop_last() =~= old_names);
                    assert(self.names().last() == key@);
                    assert forall|n: Seq<char>| Some(n) != Some(key@) implies #[trigger] self.file(n)
                        == old(self).file(n) by {
                        lemma_find(old_names, n);
                        assert(find(self.names(), n) == find(old_names, n));
                        match find(old_names, n) {
                            Some(j) => {
                                assert(self.files@[j] == old(self).files@[j]);
                            },
                            None => {},
                        }
                    }
                }
            },
        }
    }

    fn append(&mut self, data: &[u8]) {
        if let Some(i) = self.cur {
            if i < self.files.len() {
                let ghost old_names = self.names();
                let mut e: (String, Vec<u8>) = (String::new(), Vec::new());
                self.files.set_and_swap(i, &mut e);
                e.1.extend_from_slice(data);
                self.files.set(i, e);
                proof {
                    assert(self.files@[i as int].1@ =~= old(self).files@[i as int].1@ + data@);
                    assert(self.names() =~= old_names);
                    assert forall|n: Seq<char>| Some(n) != old(self).current_name() implies #[trigger] self.file(n)
                        == old(self).file(n) by {
                        lemma_find(old_names, n);
                    }
                }
            }
        }
    }

    fn close(&mut self) {
        self.cur = None;
        self.cur_file_size = 0;
    }

    fn current_file_name(&self) -> (r: Option<String>) {
        match self.cur {
            Some(i) => {
                if i < self.files.len() {
                    Some(self.files[i].0.clone())
                } else {
                    None
                }
            },
            None => None,
        }
    }

    fn current_file_length(&self) -> (r: usize) {
        match self.cur {
            Some(i) => {
                if i < self.files.len() {
                    self.files[i].1.len()
                } else {
                    0
                }
            },
            None => 0,
        }
    }

    fn set_current_size_to(&mut self, size: usize) {
        if let Some(i) = self.cur {
            if i < self.files.len() {
                let ghost old_names = self.names();
                let mut e: (String, Vec<u8>) = (String::new(), Vec::new());
                self.files.set_and_swap(i, &mut e);
                let ghost before = e.1@;
                let ghost name = e.0;
                if size <= e.1.len() {
                    e.1.truncate(size);
                } else {
                    while e.1.len() < size
                        invariant
                            e.0 == name,
                            before.len() <= e.1@.len() <= size,
                            e.1@ == resized(before, e.1@.len() as nat),
                        decreases size - e.1@.len(),
                    {
                        e.1.push(0);
                        proof {
                            assert(e.1@ =~= resized(before, e.1@.len() as nat));
                        }
                    }
                }
                proof {
                    assert(e.1@ =~= resized(before, size as nat));
                }
                self.files.set(i, e);
                proof {
                    assert(self.names() =~= old_names);
                    assert forall|n: Seq<char>| Some(n) != old(self).current_name() implies #[trigger] self.file(n)
                        == old(self).file(n) by {
                        lemma_find(old_names, n);
                    }
                }
            }
        }
    }

    fn get_current_file_total_size(&self) -> (r: usize) {
        self.cur_file_size
    }
}

} // verus!
