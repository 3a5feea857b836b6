//! Turning listed file statuses into directory entries.
//!
//! Paths are carried as plain bytes; joining uses a single slash, a
//! file's path loses every trailing slash, and a directory's path gains
//! one.

use vstd::prelude::*;
use vstd::string::StringSliceAdditionalSpecFns;

verus! {

/// Whether a listed path names a directory or a file.
#[derive(Clone, Copy, Debug, PartialEq, Eq, Structural)]
pub enum FileStatusType {
    Directory,
    File,
}

/// One listed file status: the name under the listed directory, its kind,
/// its length in bytes and its modification time in milliseconds.
#[derive(Debug, Clone)]
pub struct FileStatus {
    pub path_suffix: Vec<u8>,
    pub ty: FileStatusType,
    pub length: u64,
    pub modification_time: i64,
}

/// How an entry may be accessed.
#[derive(Clone, Copy, Debug, PartialEq, Eq, Structural)]
pub enum EntryMode {
    Dir,
    File,
}

/// One directory entry: its full path and its metadata.
#[derive(Debug, Clone)]
pub struct Entry {
    pub path: Vec<u8>,
    pub mode: EntryMode,
    pub content_length: u64,
    pub last_modified_ms: i64,
}

/// The listed base path joined with a status's name: the name alone under
/// an empty base, otherwise base, one slash, name.
pub open spec fn join_spec(base: Seq<u8>, suffix: Seq<u8>) -> Seq<u8> {
    if base.len() == 0 {
        suffix
    } else {
        base + seq![47u8] + suffix
    }
}

/// The path without its trailing slashes.
pub open spec fn trim_spec(s: Seq<u8>) -> Seq<u8>
    decreases s.len(),
{
    if s.len() > 0 && s.last() == 47u8 {
        trim_spec(s.drop_last())
    } else {
        s
    }
}

/// The full path an entry built from `st` carries: the joined path, with
/// trailing slashes removed for a file and one slash appended for a
/// directory.
pub open spec fn entry_path_of(base: Seq<u8>, st: FileStatus) -> Seq<u8> {
    let joined = join_spec(base, st.path_suffix@);
    match st.ty {
        FileStatusType::File => trim_spec(joined),
        FileStatusType::Directory => joined + seq![47u8],
    }
}

/// The access mode an entry built from `st` carries.
pub open spec fn entry_mode_of(st: FileStatus) -> EntryMode {
    match st.ty {
        FileStatusType::File => EntryMode::File,
        FileStatusType::Directory => EntryMode::Dir,
    }
}

/// The content length an entry built from `st` carries: a directory's
/// metadata records none.
pub open spec fn entry_length_of(st: FileStatus) -> u64 {
    match st.ty {
        FileStatusType::File => st.length,
        FileStatusType::Directory => 0,
    }
}

/// The modification time an entry built from `st` carries.
pub open spec fn entry_modified_of(st: FileStatus) -> i64 {
    match st.ty {
        FileStatusType::File => st.modification_time,
        FileStatusType::Directory => 0,
    }
}

/// Whether `e` is exactly the entry built from `st` under `base`.
pub open spec fn is_entry_of(e: Entry, base: Seq<u8>, st: FileStatus) -> bool {
    &&& e.path@ == entry_path_of(base, st)
    &&& e.mode == entry_mode_of(st)
    &&& e.content_length == entry_length_of(st)
    &&& e.last_modified_ms == entry_modified_of(st)
}

/// Appends every byte of `src` to `dst`.
fn append_bytes(dst: &mut Vec<u8>, src: &Vec<u8>)
    ensures
        final(dst)@ == old(dst)@ + src@,
{
    let n = src.len();
    for i in 0..n
        invariant
            n == src@.len(),
            dst@ == old(dst)@ + src@.take(i as int),
    {
        dst.push(src[i]);
        proof {
            assert(src@.take(i + 1 as int) =~= src@.take(i as int).push(src@[i as int]));
            assert(old(dst)@ + src@.take(i + 1 as int) =~= (old(dst)@ + src@.take(i as int)).push(
                src@[i as int],
            ));
        }
    }
    proof {
        assert(src@.take(n as int) =~= src@);
    }
}

/// The joined path of the listed base and a status's name.
fn join_path(base: &Vec<u8>, suffix: &Vec<u8>) -> (r: Vec<u8>)
    ensures
        r@ == join_spec(base@, suffix@),
{
    let mut r: Vec<u8> = Vec::new();
    if base.len() == 0 {
        append_bytes(&mut r, suffix);
        proof {
            assert(r@ =~= suffix@);
        }
    } else {
        append_bytes(&mut r, base);
        r.push(47u8);
        append_bytes(&mut r, suffix);
        proof {
            assert(r@ =~= base@ + seq![47u8] + suffix@);
        }
    }
    r
}

/// Removes every trailing slash.
fn trim_trailing_slashes(v: &mut Vec<u8>)
    ensures
        final(v)@ == trim_spec(old(v)@),
{
    loop
        invariant
            trim_spec(v@) == trim_spec(old(v)@),
        decreases v@.len(),
    {
        let n = v.len();
        if n == 0 {
            return ;
        }
        if v[n - 1] != 47u8 {
            return ;
        }
        let ghost before = v@;
        let _ = v.pop();
        proof {
            assert(before.drop_last() =~= v@);
        }
    }
}

/// Whether `e` is the entry built from the status `orig[orig.len()-1-i]`.
pub open spec fn is_entry_of_at(e: Entry, orig: Seq<FileStatus>, base: Seq<u8>, i: int) -> bool {
    is_entry_of(e, base, orig[orig.len() - 1 - i])
}

/// A pager over one listed directory: the listed path and the statuses
/// still to be turned into entries.
pub struct WebhdfsPager {
    pub path: Vec<u8>,
    pub statuses: Vec<FileStatus>,
}

impl WebhdfsPager {
    /// A pager over the given listed path and its statuses.
    pub fn new(path: &str, statuses: Vec<FileStatus>) -> (r: WebhdfsPager)
        ensures
            r.path@ == path.spec_bytes(),
            r.statuses == statuses,
    {
        let b = path.as_bytes();
        let mut p: Vec<u8> = Vec::new();
        let n = b.len();
        for i in 0..n
            invariant
                n == b@.len(),
                b@ == path.spec_bytes(),
                p@ == b@.take(i as int),
        {
            p.push(b[i]);
            proof {
                assert(b@.take(i + 1 as int) =~= b@.take(i as int).push(b@[i as int]));
            }
        }
        proof {
            assert(b@.take(n as int) =~= b@);
        }
        WebhdfsPager { path: p, statuses }
    }

    /// The next page of entries: nothing when no statuses are left,
    /// otherwise every remaining status turned into its entry, last
    /// status first, leaving the pager empty.
    pub fn next(&mut self) -> (r: Option<Vec<Entry>>)
        ensures
            final(self).path@ == old(self).path@,
            old(self).statuses@.len() == 0 ==> r is None && final(self).statuses@ == old(
                self,
            ).statuses@,
            old(self).statuses@.len() > 0 ==> {
                &&& final(self).statuses@.len() == 0
                &&& r matches Some(entries) && entries@.len() == old(self).statuses@.len()
                    && forall|i: int|
                    0 <= i < entries@.len() ==> is_entry_of(
                        #[trigger] entries@[i],
                        old(self).path@,
                        old(self).statuses@[old(self).statuses@.len() - 1 - i],
                    )
            },
    {
        if self.statuses.len() == 0 {
            return None;
        }
        let ghost orig = self.statuses@;
        let mut entries: Vec<Entry> = Vec::new();
        while self.statuses.len() > 0
            invariant
                self.path@ == old(self).path@,
                orig == old(self).statuses@,
                entries@.len() + self.statuses@.len() == orig.len(),
                self.statuses@ == orig.take(self.statuses@.len() as int),
                forall|i: int|
                    0 <= i < entries@.len() ==> is_entry_of_at(
                        #[trigger] entries@[i],
                        orig,
                        old(self).path@,
                        i,
                    ),
            decreases self.statuses@.len(),
        {
            let status = match self.statuses.pop() {
                Some(s) => s,
                None => unreached(),
            };
            proof {
                assert(orig.take((self.statuses@.len() + 1) as int).last() == orig[orig.len() - 1
                    - entries@.len()]);
                assert(orig.take((self.statuses@.len() + 1) as int).drop_last() =~= orig.take(
                    self.statuses@.len() as int,
                ));
            }
            let mut joined = join_path(&self.path, &status.path_suffix);
            let entry = match status.ty {
                FileStatusType::File => {
                    trim_trailing_slashes(&mut joined);
                    Entry {
                        path: joined,
                        mode: EntryMode::File,
                        content_length: status.length,
                        last_modified_ms: status.modification_time,
                    }
                },
                FileStatusType::Directory => {
                    joined.push(47u8);
                    proof {
                        assert(joined@ =~= join_spec(old(self).path@, status.path_suffix@) + seq![
                            47u8,
                        ]);
                    }
                    Entry {
                        path: joined,
                        mode: EntryMode::Dir,
                        content_length: 0,
                        last_modified_ms: 0,
                    }
                },
            };
            entries.push(entry);
        }
        proof {
            assert forall|i: int| 0 <= i < entries@.len() implies is_entry_of(
                #[trigger] entries@[i],
                old(self).path@,
                old(self).statuses@[old(self).statuses@.len() - 1 - i],
            ) by {
                assert(is_entry_of_at(entries@[i], orig, old(self).path@, i));
            }
        }
        Some(entries)
    }
}

} // verus!
