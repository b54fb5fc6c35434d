//! The catalog's record type and the rules that derive its fields from a path.
use vstd::prelude::*;

verus! {

use vstd::std_specs::iter::IteratorSpec;

broadcast use vstd::string::next_postcondition, vstd::string::axiom_spec_iter;

/// One catalog entry per file: its path (the unique key), the name parts
/// derived from the path, size and timestamps read at scan time, the fast
/// content fingerprint, and an optional strong fingerprint that a later
/// confirmation step may fill in.
#[derive(Clone, Debug)]
pub struct FileEntry {
    pub path: String,
    pub filename: String,
    pub extension: Option<String>,
    pub size_bytes: u64,
    pub created_at: i64,
    pub modified_at: i64,
    pub md5_hash: String,
    pub sha256_hash: Option<String>,
}

/// Mathematical image of a `FileEntry`: every text field as a character
/// sequence, so that contracts can speak of records without caring how the
/// executable strings are stored.
pub struct RecordModel {
    pub path: Seq<char>,
    pub filename: Seq<char>,
    pub extension: Option<Seq<char>>,
    pub size_bytes: u64,
    pub created_at: i64,
    pub modified_at: i64,
    pub md5_hash: Seq<char>,
    pub sha256_hash: Option<Seq<char>>,
}

/// View of an optional string as an optional character sequence.
pub open spec fn opt_view(o: Option<String>) -> Option<Seq<char>> {
    match o {
        Some(s) => Some(s@),
        None => None,
    }
}

impl View for FileEntry {
    type V = RecordModel;

    open spec fn view(&self) -> RecordModel {
        RecordModel {
            path: self.path@,
            filename: self.filename@,
            extension: opt_view(self.extension),
            size_bytes: self.size_bytes,
            created_at: self.created_at,
            modified_at: self.modified_at,
            md5_hash: self.md5_hash@,
            sha256_hash: opt_view(self.sha256_hash),
        }
    }
}

/// The records of a sequence of entries, as their mathematical images.
pub open spec fn views_of(entries: Seq<FileEntry>) -> Seq<RecordModel> {
    entries.map_values(|e: FileEntry| e@)
}

/// Appending an entry appends its image.
pub proof fn lemma_views_of_push(entries: Seq<FileEntry>, e: FileEntry)
    ensures
        views_of(entries.push(e)) == views_of(entries).push(e@),
{
    assert(views_of(entries.push(e)) =~= views_of(entries).push(e@));
}

/// No entries, no images.
pub proof fn lemma_views_of_empty()
    ensures
        views_of(Seq::<FileEntry>::empty()) == Seq::<RecordModel>::empty(),
{
    assert(views_of(Seq::<FileEntry>::empty()) =~= Seq::<RecordModel>::empty());
}

/// The file name of a path: everything after the last `/` separator
/// (the whole path when it has no separator).
pub open spec fn filename_of(p: Seq<char>) -> Seq<char>
    decreases p.len(),
{
    if p.len() == 0 {
        Seq::empty()
    } else if p.last() == '/' {
        Seq::empty()
    } else {
        filename_of(p.drop_last()).push(p.last())
    }
}

/// The extension of a file name: everything after the last `.`, provided
/// that dot is not the leading character (so a dotfile such as `.gitignore`
/// has no extension).
pub open spec fn extension_of(name: Seq<char>) -> Option<Seq<char>>
    decreases name.len(),
{
    if name.len() == 0 {
        None
    } else if name.last() == '.' {
        if name.len() == 1 {
            None
        } else {
            Some(Seq::empty())
        }
    } else {
        match extension_of(name.drop_last()) {
            Some(e) => Some(e.push(name.last())),
            None => None,
        }
    }
}

/// Whether the path's final segment — after the last separator, or the
/// whole path when it has none — is exactly the given sequence.
pub open spec fn last_segment_is(p: Seq<char>, s: Seq<char>) -> bool {
    &&& p.len() >= s.len()
    &&& p.skip(p.len() - s.len()) == s
    &&& (p.len() == s.len() || p[p.len() - s.len() - 1] == '/')
}

/// A normalized file path, as the catalog stores them: it does not end in a
/// separator, and its final segment is a real name rather than the current-
/// or parent-directory marker. On such paths the derivation rules below read
/// the name parts off the text exactly.
pub open spec fn normalized_file_path(p: Seq<char>) -> bool {
    &&& p.len() > 0
    &&& p.last() != '/'
    &&& !last_segment_is(p, seq!['.'])
    &&& !last_segment_is(p, seq!['.', '.'])
}

/// Relies on `String::push`: appends the given character to the end of the
/// string.
#[verifier::external_body]
fn push_char(s: &mut String, c: char)
    ensures
        final(s)@ == old(s)@.push(c),
{
    s.push(c);
}

impl FileEntry {
    /// Assembles the record for one scanned file: the name parts are derived
    /// from `path` — which must be a normalized file path, with no trailing
    /// separator and a real final name — the fast fingerprint is taken as
    /// computed by the hasher, and the strong fingerprint starts out absent.
    pub fn new(path: String, size: u64, created: i64, modified: i64, md5: String) -> (e:
        FileEntry)
        requires
            normalized_file_path(path@),
        ensures
            e.path@ == path@,
            e.filename@ == filename_of(path@),
            opt_view(e.extension) == extension_of(filename_of(path@)),
            e.size_bytes == size,
            e.created_at == created,
            e.modified_at == modified,
            e.md5_hash@ == md5@,
            e.sha256_hash is None,
    {
        let mut filename = String::new();
        let mut extension: Option<String> = None;
        let mut it = path.as_str().chars();
        let ghost mut done: Seq<char> = Seq::empty();
        loop
            invariant
                it.decrease() is Some,
                done + it.remaining() == path@,
                filename@ == filename_of(done),
                opt_view(extension) == extension_of(filename_of(done)),
            ensures
                done =~= path@,
                filename@ == filename_of(done),
                opt_view(extension) == extension_of(filename_of(done)),
            decreases it.decrease()->0,
        {
            let next = it.next();
            match next {
                Some(c) => {
                    proof {
                        assert(done.push(c).drop_last() =~= done);
                        assert(done.push(c) + it.remaining() =~= path@);
                    }
                    if c == '/' {
                        filename = String::new();
                        extension = None;
                    } else {
                        if c == '.' {
                            if filename.as_str().is_empty() {
                                extension = None;
                            } else {
                                extension = Some(String::new());
                            }
                        } else {
                            match &mut extension {
                                Some(e) => push_char(e, c),
                                None => {},
                            }
                        }
                        push_char(&mut filename, c);
                        proof {
                            assert(filename_of(done).push(c).drop_last() =~= filename_of(done));
                            assert(filename_of(done.push(c)) =~= filename_of(done).push(c));
                        }
                    }
                    proof {
                        done = done.push(c);
                    }
                },
                None => {
                    break ;
                },
            }
        }
        proof {
            assert(done =~= path@);
        }
        FileEntry {
            path,
            filename,
            extension,
            size_bytes: size,
            created_at: created,
            modified_at: modified,
            md5_hash: md5,
            sha256_hash: None,
        }
    }
}

} // verus!
