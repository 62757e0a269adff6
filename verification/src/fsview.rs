//! An in-memory model of the files the library reasons about.
//!
//! A view maps each path that exists to what is known of its contents: `Some`
//! bytes when they were read, `None` when the file exists but its contents are
//! not available (not read, or unreadable). The view is kept as a log of
//! additions and removals; its meaning is the log replayed in order.
use vstd::prelude::*;

verus! {

/// One entry of the log: the file at `path` appears (with `content`) or disappears.
pub struct FileRecord {
    path: String,
    present: bool,
    content: Option<Vec<u8>>,
}

/// A model of the relevant part of a file system.
pub struct FsView {
    records: Vec<FileRecord>,
}

/// The bytes held by an optional buffer.
pub open spec fn content_view(c: Option<Vec<u8>>) -> Option<Seq<u8>> {
    match c {
        Some(v) => Some(v@),
        None => None,
    }
}

/// The map described by a log of records.
pub closed spec fn replay(records: Seq<FileRecord>) -> Map<Seq<char>, Option<Seq<u8>>>
    decreases records.len(),
{
    if records.len() == 0 {
        Map::empty()
    } else {
        let prev = replay(records.drop_last());
        let r = records.last();
        if r.present {
            prev.insert(r.path@, content_view(r.content))
        } else {
            prev.remove(r.path@)
        }
    }
}

impl View for FsView {
    type V = Map<Seq<char>, Option<Seq<u8>>>;

    closed spec fn view(&self) -> Self::V {
        replay(self.records@)
    }
}

impl FsView {
    /// An empty view: no file exists.
    pub fn new() -> (r: Self)
        ensures
            r@ == Map::<Seq<char>, Option<Seq<u8>>>::empty(),
    {
        FsView { records: Vec::new() }
    }

    fn push_record(&mut self, rec: FileRecord)
        ensures
            final(self)@ == if rec.present {
                old(self)@.insert(rec.path@, content_view(rec.content))
            } else {
                old(self)@.remove(rec.path@)
            },
    {
        let ghost old_records = self.records@;
        self.records.push(rec);
        assert(self.records@.drop_last() =~= old_records);
    }

    /// Records that the file at `path` exists, with `content` as what is known of it.
    pub fn add_file(&mut self, path: &str, content: Option<Vec<u8>>)
        ensures
            final(self)@ == old(self)@.insert(path@, content_view(content)),
    {
        self.push_record(FileRecord { path: path.to_owned(), present: true, content });
    }

    /// Records that the file at `path` no longer exists.
    pub fn remove_file(&mut self, path: &str)
        ensures
            final(self)@ == old(self)@.remove(path@),
    {
        self.push_record(FileRecord { path: path.to_owned(), present: false, content: None });
    }

    /// Index of the last record about `path`.
    fn last_record(&self, path: &String) -> (r: Option<usize>)
        ensures
            match r {
                Some(i) => {
                    &&& i < self.records@.len()
                    &&& self.records@[i as int].path@ == path@
                    &&& (self@.dom().contains(path@) <==> self.records@[i as int].present)
                    &&& self.records@[i as int].present ==> self@[path@] == content_view(
                        self.records@[i as int].content,
                    )
                },
                None => !self@.dom().contains(path@),
            },
    {
        let mut i = self.records.len();
        assert(self.records@.take(i as int) =~= self.records@);
        while i > 0
            invariant
                i <= self.records@.len(),
                replay(self.records@).dom().contains(path@) == replay(
                    self.records@.take(i as int),
                ).dom().contains(path@),
                replay(self.records@).dom().contains(path@) ==> replay(self.records@)[path@]
                    == replay(self.records@.take(i as int))[path@],
            decreases i,
        {
            let ghost pre = self.records@.take(i as int);
            assert(pre.drop_last() =~= self.records@.take(i - 1));
            if self.records[i - 1].path == *path {
                return Some(i - 1);
            }
            i = i - 1;
        }
        assert(self.records@.take(0) =~= Seq::<FileRecord>::empty());
        None
    }

    /// Whether the file at `path` exists.
    pub fn file_exists(&self, path: &str) -> (r: bool)
        ensures
            r == self@.dom().contains(path@),
    {
        let p = path.to_owned();
        match self.last_record(&p) {
            Some(i) => self.records[i].present,
            None => false,
        }
    }

    /// The known contents of the file at `path`: nothing when the file does not
    /// exist or its contents are not known.
    pub fn read(&self, path: &str) -> (r: Option<&Vec<u8>>)
        ensures
            match r {
                Some(v) => self@.dom().contains(path@) && self@[path@] == Some(v@),
                None => !self@.dom().contains(path@) || self@[path@] is None,
            },
    {
        let p = path.to_owned();
        match self.last_record(&p) {
            Some(i) => {
                if self.records[i].present {
                    match &self.records[i].content {
                        Some(v) => Some(v),
                        None => None,
                    }
                } else {
                    None
                }
            },
            None => None,
        }
    }

    /// Moves the file at `from` to `to`, as a successful `rename` does; nothing
    /// changes when `from` does not exist.
    pub fn rename(&mut self, from: &str, to: &str)
        ensures
            old(self)@.dom().contains(from@) ==> final(self)@ == old(self)@.remove(from@).insert(
                to@,
                old(self)@[from@],
            ),
            !old(self)@.dom().contains(from@) ==> final(self)@ == old(self)@,
    {
        let f = from.to_owned();
        match self.last_record(&f) {
            Some(i) => {
                if self.records[i].present {
                    let content: Option<Vec<u8>> = match &self.records[i].content {
                        Some(v) => Some(v.clone()),
                        None => None,
                    };
                    assert(content_view(content) == old(self)@[from@]) by {
                        if let Some(v) = content {
                            assert(v@ =~= self.records@[i as int].content.unwrap()@);
                        }
                    }
                    self.remove_file(from);
                    self.add_file(to, content);
                }
            },
            None => {},
        }
    }
}

} // verus!
