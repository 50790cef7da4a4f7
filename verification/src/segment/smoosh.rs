use crate::error::{DruidSegmentError, ErrorKind};
use crate::segment::name_order::{
    lemma_name_lt_irreflexive, lemma_name_lt_transitive, name_lt, name_order,
};
use crate::segment::text::{
    chars_text, copy_range, number, parse_number, split, split_chars, text_chars, trim,
    trim_chars,
};
use vstd::prelude::*;
use vstd::slice::slice_subrange;

verus! {

/// What one line of the archive index says of a logical file.
pub struct EntryModel {
    pub name: Seq<char>,
    pub chunk: nat,
    pub start: nat,
    pub end: nat,
}

/// What an archive index holds.
pub struct IndexModel {
    /// Number of chunk files.
    pub num_chunks: nat,
    /// The logical files by name. Where a name occurs on several lines, the
    /// last of them stands.
    pub files: Map<Seq<char>, EntryModel>,
}

/// The number of chunk files that a header line announces: the third of its
/// comma-separated fields, trimmed, where the first is `v1`.
pub open spec fn header_chunks(line: Seq<char>) -> Option<nat> {
    let fields = split(line, ',');
    if fields.len() >= 3 && fields[0] == seq!['v', '1'] {
        number(trim(fields[2]))
    } else {
        None
    }
}

/// The entry that a trimmed, non-empty line holds: a name, a chunk ordinal, a
/// start offset and an end offset, separated by commas. Fields behind the
/// fourth are ignored.
pub open spec fn entry_of(line: Seq<char>) -> Option<EntryModel> {
    let fields = split(line, ',');
    if fields.len() >= 4 {
        match (number(fields[1]), number(fields[2]), number(fields[3])) {
            (Some(chunk), Some(start), Some(end)) => Some(
                EntryModel { name: fields[0], chunk, start, end },
            ),
            _ => None,
        }
    } else {
        None
    }
}

/// The logical files that the lines `1..k` announce, or `None` where one of
/// them is malformed. Lines that are blank once trimmed are skipped.
pub open spec fn files_upto(lines: Seq<Seq<char>>, k: nat) -> Option<Map<Seq<char>, EntryModel>>
    decreases k,
{
    if k <= 1 {
        Some(Map::empty())
    } else {
        match files_upto(lines, (k - 1) as nat) {
            None => None,
            Some(files) => {
                let line = trim(lines[k - 1]);
                if line.len() == 0 {
                    Some(files)
                } else {
                    match entry_of(line) {
                        Some(entry) => Some(files.insert(entry.name, entry)),
                        None => None,
                    }
                }
            },
        }
    }
}

/// What the text of an archive index holds, or `None` where it is
/// malformed. The first line is the header; every other line is blank or an
/// entry. A carriage return before a line feed counts as white space.
pub open spec fn meta_index(text: Seq<char>) -> Option<IndexModel> {
    let lines = split(text, '\n');
    match (header_chunks(lines[0]), files_upto(lines, lines.len())) {
        (Some(num_chunks), Some(files)) => Some(IndexModel { num_chunks, files }),
        _ => None,
    }
}

/// The name at position `i` of a list of keys.
pub open spec fn key_at(keys: Seq<Vec<char>>, i: int) -> Seq<char> {
    keys[i]@
}

/// Whether parallel lists of keys and entries, in strictly ascending order of
/// key, hold exactly the files of a map.
pub open spec fn represents(
    keys: Seq<Vec<char>>,
    entries: Seq<SmooshEntry>,
    files: Map<Seq<char>, EntryModel>,
) -> bool {
    &&& keys.len() == entries.len()
    &&& forall|i: int, j: int|
        0 <= i < j < keys.len() ==> name_lt(#[trigger] key_at(keys, i), #[trigger] key_at(keys, j))
    &&& forall|i: int|
        0 <= i < keys.len() ==> {
            &&& entries[i]@.name == #[trigger] key_at(keys, i)
            &&& files.dom().contains(key_at(keys, i))
            &&& files[key_at(keys, i)] == entries[i]@
        }
    &&& forall|name: Seq<char>| #[trigger]
        files.dom().contains(name) ==> exists|i: int|
            0 <= i < keys.len() && #[trigger] key_at(keys, i) == name
}

/// Metadata of one logical file of the archive.
#[derive(Debug, Clone)]
pub struct SmooshEntry {
    /// The logical file's name.
    pub name: String,
    /// Ordinal of the chunk file that holds it.
    pub chunk_number: usize,
    /// Where it starts in the chunk.
    pub start_offset: usize,
    /// Where it ends in the chunk (exclusive).
    pub end_offset: usize,
}

impl View for SmooshEntry {
    type V = EntryModel;

    open spec fn view(&self) -> EntryModel {
        EntryModel {
            name: self.name@,
            chunk: self.chunk_number as nat,
            start: self.start_offset as nat,
            end: self.end_offset as nat,
        }
    }
}

impl SmooshEntry {
    /// Size of the logical file in bytes.
    pub fn size(&self) -> (n: usize)
        requires
            self.start_offset <= self.end_offset,
        ensures
            n == self.end_offset - self.start_offset,
    {
        self.end_offset - self.start_offset
    }
}

/// The position of a name among the keys, if it is there.
fn find(keys: &Vec<Vec<char>>, name: &Vec<char>) -> (r: Option<usize>)
    ensures
        match r {
            Some(i) => i < keys@.len() && key_at(keys@, i as int) == name@,
            None => forall|i: int| 0 <= i < keys@.len() ==> #[trigger] key_at(keys@, i) != name@,
        },
{
    let n = keys.len();
    let mut i: usize = 0;
    while i < n
        invariant
            i <= n == keys@.len(),
            forall|j: int| 0 <= j < i ==> #[trigger] key_at(keys@, j) != name@,
        decreases n - i,
    {
        if name_order(&keys[i], name) == 1 {
            return Some(i);
        }
        i = i + 1;
    }
    None
}

/// Puts an entry under its name: in place of the entry of that name, if there
/// is one, else at the position that keeps the keys in ascending order.
fn upsert(
    keys: &mut Vec<Vec<char>>,
    entries: &mut Vec<SmooshEntry>,
    key: Vec<char>,
    entry: SmooshEntry,
    Ghost(files): Ghost<Map<Seq<char>, EntryModel>>,
)
    requires
        represents(old(keys)@, old(entries)@, files),
        entry@.name == key@,
    ensures
        represents(final(keys)@, final(entries)@, files.insert(key@, entry@)),
{
    let n = keys.len();
    let ghost old_keys = keys@;
    let ghost old_entries = entries@;
    let ghost name = key@;
    let ghost model = entry@;
    let ghost after = files.insert(name, model);
    let mut p: usize = 0;
    let mut order: u8 = 2;
    while p < n
        invariant_except_break
            order == 2,
        invariant
            p <= n == keys@.len(),
            keys@ == old_keys,
            entries@ == old_entries,
            name == key@,
            forall|i: int| 0 <= i < p ==> name_lt(#[trigger] key_at(keys@, i), name),
        ensures
            p <= n,
            keys@ == old_keys,
            entries@ == old_entries,
            name == key@,
            forall|i: int| 0 <= i < p ==> name_lt(#[trigger] key_at(keys@, i), name),
            p < n ==> (order == 1 <==> key_at(keys@, p as int) == name),
            p < n ==> (order == 2 <==> name_lt(name, key_at(keys@, p as int))),
            1 <= order <= 2,
            p == n ==> order == 2,
        decreases n - p,
    {
        let found = name_order(&keys[p], &key);
        if found != 0 {
            order = found;
            break;
        }
        p = p + 1;
    }
    if p < n && order == 1 {
        entries.set(p, entry);
        proof {
            assert forall|i: int| 0 <= i < keys@.len() implies {
                &&& entries@[i]@.name == #[trigger] key_at(keys@, i)
                &&& after.dom().contains(key_at(keys@, i))
                &&& after[key_at(keys@, i)] == entries@[i]@
            } by {
                if i != p {
                    assert(key_at(old_keys, i) != name) by {
                        lemma_name_lt_irreflexive(name);
                        if i < p {
                            assert(name_lt(key_at(old_keys, i), key_at(old_keys, p as int)));
                        } else {
                            assert(name_lt(key_at(old_keys, p as int), key_at(old_keys, i)));
                        }
                    }
                }
            }
            assert forall|other: Seq<char>| #[trigger] after.dom().contains(other) implies exists|
                i: int,
            | 0 <= i < keys@.len() && #[trigger] key_at(keys@, i) == other by {
                if other == name {
                    assert(key_at(keys@, p as int) == other);
                } else {
                    assert(files.dom().contains(other));
                }
            }
        }
    } else {
        keys.insert(p, key);
        entries.insert(p, entry);
        proof {
            assert forall|i: int| 0 <= i < keys@.len() implies key_at(keys@, i) == (if i < p {
                key_at(old_keys, i)
            } else if i == p {
                name
            } else {
                key_at(old_keys, i - 1)
            }) by {}
            assert forall|i: int, j: int| 0 <= i < j < keys@.len() implies name_lt(
                #[trigger] key_at(keys@, i),
                #[trigger] key_at(keys@, j),
            ) by {
                if j < p {
                    assert(name_lt(key_at(old_keys, i), key_at(old_keys, j)));
                } else if j == p {
                    assert(name_lt(key_at(old_keys, i), name));
                } else if i == p {
                    if j - 1 > p {
                        assert(name_lt(key_at(old_keys, p as int), key_at(old_keys, j - 1)));
                        lemma_name_lt_transitive(
                            name,
                            key_at(old_keys, p as int),
                            key_at(old_keys, j - 1),
                        );
                    }
                } else if i < p {
                    assert(name_lt(key_at(old_keys, i), key_at(old_keys, j - 1)));
                } else {
                    assert(name_lt(key_at(old_keys, i - 1), key_at(old_keys, j - 1)));
                }
            }
            assert forall|i: int| 0 <= i < keys@.len() implies {
                &&& entries@[i]@.name == #[trigger] key_at(keys@, i)
                &&& after.dom().contains(key_at(keys@, i))
                &&& after[key_at(keys@, i)] == entries@[i]@
            } by {
                lemma_name_lt_irreflexive(name);
                if i < p {
                    assert(name_lt(key_at(old_keys, i), name));
                    assert(entries@[i] == old_entries[i]);
                } else if i > p {
                    assert(entries@[i] == old_entries[i - 1]);
                    assert(key_at(old_keys, i - 1) != name) by {
                        if i - 1 > p {
                            assert(name_lt(key_at(old_keys, p as int), key_at(old_keys, i - 1)));
                            lemma_name_lt_transitive(
                                name,
                                key_at(old_keys, p as int),
                                key_at(old_keys, i - 1),
                            );
                        }
                    }
                }
            }
            assert forall|other: Seq<char>| #[trigger] after.dom().contains(other) implies exists|
                i: int,
            | 0 <= i < keys@.len() && #[trigger] key_at(keys@, i) == other by {
                if other == name {
                    assert(key_at(keys@, p as int) == other);
                } else {
                    assert(files.dom().contains(other));
                    let i = choose|i: int|
                        0 <= i < old_keys.len() && #[trigger] key_at(old_keys, i) == other;
                    if i < p {
                        assert(key_at(keys@, i) == other);
                    } else {
                        assert(key_at(keys@, i + 1) == other);
                    }
                }
            }
        }
    }
}

/// An `InvalidSmooshMeta` error with the given static message.
fn invalid_meta<T>(msg: &str) -> (r: Result<T, DruidSegmentError>)
    ensures
        r matches Err(e) && e.spec_kind() == ErrorKind::InvalidSmooshMeta,
{
    Err(DruidSegmentError::InvalidSmooshMeta(msg.to_owned()))
}

/// Once a line is malformed, the index is malformed whatever follows.
pub proof fn lemma_malformed_persists(lines: Seq<Seq<char>>, k: nat, n: nat)
    requires
        k <= n,
        files_upto(lines, k) is None,
    ensures
        files_upto(lines, n) is None,
    decreases n - k,
{
    if k < n {
        lemma_malformed_persists(lines, k, (n - 1) as nat);
    }
}

/// Reads the header line: the number of chunk files.
fn parse_header(line: &Vec<char>) -> (r: Option<usize>)
    ensures
        match header_chunks(line@) {
            Some(n) => r == Some(n as usize),
            None => r is None,
        },
{
    let fields = split_chars(line, ',');
    if fields.len() < 3 {
        return None;
    }
    let version = &fields[0];
    if version.len() != 2 || version[0] != 'v' || version[1] != '1' {
        assert(fields@[0]@ != seq!['v', '1']) by {
            if fields@[0]@.len() == 2 {
                assert(seq!['v', '1'][0] == 'v' && seq!['v', '1'][1] == '1');
            }
        }
        return None;
    }
    assert(fields@[0]@ =~= seq!['v', '1']);
    let count = trim_chars(&fields[2]);
    parse_number(&count)
}

/// Reads a trimmed, non-empty line as an entry, with its name as a key.
fn parse_entry(line: &Vec<char>) -> (r: Option<(Vec<char>, SmooshEntry)>)
    ensures
        match entry_of(line@) {
            Some(model) => r matches Some((key, entry)) && key@ == model.name && entry@ == model,
            None => r is None,
        },
{
    let fields = split_chars(line, ',');
    if fields.len() < 4 {
        return None;
    }
    let chunk_number = match parse_number(&fields[1]) {
        Some(n) => n,
        None => {
            return None;
        },
    };
    let start_offset = match parse_number(&fields[2]) {
        Some(n) => n,
        None => {
            return None;
        },
    };
    let end_offset = match parse_number(&fields[3]) {
        Some(n) => n,
        None => {
            return None;
        },
    };
    let key = copy_range(&fields[0], 0, fields[0].len());
    assert(key@ =~= fields@[0]@);
    let name = chars_text(&key);
    Some((key, SmooshEntry { name, chunk_number, start_offset, end_offset }))
}

/// The index of a packed archive: how many chunk files there are, and for
/// each logical file the chunk and the range that hold it. The entries are
/// kept in ascending order of name.
pub struct SmooshIndex {
    num_chunks: usize,
    keys: Vec<Vec<char>>,
    entries: Vec<SmooshEntry>,
    files: Ghost<Map<Seq<char>, EntryModel>>,
}

impl View for SmooshIndex {
    type V = IndexModel;

    closed spec fn view(&self) -> IndexModel {
        IndexModel { num_chunks: self.num_chunks as nat, files: self.files@ }
    }
}

impl SmooshIndex {
    #[verifier::type_invariant]
    spec fn well_formed(&self) -> bool {
        represents(self.keys@, self.entries@, self.files@)
    }

    /// The entries in the order in which they are kept.
    pub closed spec fn listing(&self) -> Seq<SmooshEntry> {
        self.entries@
    }

    /// Parses the text of an archive index. Every malformed text is an
    /// `InvalidSmooshMeta`.
    pub fn parse(text: &str) -> (r: Result<Self, DruidSegmentError>)
        ensures
            match meta_index(text@) {
                Some(model) => r matches Ok(index) && index@ == model,
                None => r matches Err(e) && e.spec_kind() == ErrorKind::InvalidSmooshMeta,
            },
    {
        let chars = text_chars(text);
        let lines = split_chars(&chars, '\n');
        let ghost all = split(text@, '\n');
        assert(all.len() >= 1);
        let num_chunks = match parse_header(&lines[0]) {
            Some(n) => n,
            None => {
                return invalid_meta("invalid header line");
            },
        };
        let n = lines.len();
        let mut keys: Vec<Vec<char>> = Vec::new();
        let mut entries: Vec<SmooshEntry> = Vec::new();
        let ghost mut files: Map<Seq<char>, EntryModel> = Map::empty();
        let mut k: usize = 1;
        while k < n
            invariant
                1 <= k <= n == lines@.len() == all.len(),
                all == split(text@, '\n'),
                forall|i: int| 0 <= i < n ==> (#[trigger] lines@[i])@ == all[i],
                files_upto(all, k as nat) == Some(files),
                represents(keys@, entries@, files),
            decreases n - k,
        {
            let line = trim_chars(&lines[k]);
            if line.len() > 0 {
                match parse_entry(&line) {
                    Some((key, entry)) => {
                        upsert(&mut keys, &mut entries, key, entry, Ghost(files));
                        proof {
                            files = files.insert(key@, entry@);
                        }
                    },
                    None => {
                        proof {
                            assert(line@ == trim(all[k as int]));
                            assert(files_upto(all, (k + 1) as nat) is None);
                            lemma_malformed_persists(all, (k + 1) as nat, n as nat);
                        }
                        return invalid_meta("invalid entry line");
                    },
                }
            }
            k = k + 1;
        }
        Ok(SmooshIndex { num_chunks, keys, entries, files: Ghost(files) })
    }

    /// Number of chunk files that the header announces.
    pub fn num_chunks(&self) -> (n: usize)
        ensures
            n == self@.num_chunks,
    {
        self.num_chunks
    }

    /// The entry of the logical file of that name, if there is one.
    pub fn entry(&self, name: &str) -> (r: Option<&SmooshEntry>)
        ensures
            match r {
                Some(entry) => self@.files.dom().contains(name@) && entry@ == self@.files[name@],
                None => !self@.files.dom().contains(name@),
            },
    {
        proof {
            use_type_invariant(self);
        }
        let key = text_chars(name);
        match find(&self.keys, &key) {
            Some(i) => {
                assert(key_at(self.keys@, i as int) == name@);
                Some(&self.entries[i])
            },
            None => None,
        }
    }

    /// Whether there is a logical file of that name.
    pub fn has_file(&self, name: &str) -> (b: bool)
        ensures
            b == self@.files.dom().contains(name@),
    {
        self.entry(name).is_some()
    }

    /// All entries, in ascending order of name: each logical file once.
    pub fn entries(&self) -> (r: &Vec<SmooshEntry>)
        ensures
            r@ == self.listing(),
            forall|i: int, j: int|
                0 <= i < j < r@.len() ==> name_lt((#[trigger] r@[i])@.name, (#[trigger] r@[j])@.name),
            forall|i: int|
                0 <= i < r@.len() ==> self@.files.dom().contains((#[trigger] r@[i])@.name)
                    && self@.files[r@[i]@.name] == r@[i]@,
            forall|name: Seq<char>| #[trigger]
                self@.files.dom().contains(name) ==> exists|i: int|
                    0 <= i < r@.len() && (#[trigger] r@[i])@.name == name,
    {
        proof {
            use_type_invariant(self);
            assert forall|i: int, j: int| 0 <= i < j < self.entries@.len() implies name_lt(
                (#[trigger] self.entries@[i])@.name,
                (#[trigger] self.entries@[j])@.name,
            ) by {
                assert(name_lt(key_at(self.keys@, i), key_at(self.keys@, j)));
            }
            assert forall|i: int| 0 <= i < self.entries@.len() implies self@.files.dom().contains(
                (#[trigger] self.entries@[i])@.name,
            ) && self@.files[self.entries@[i]@.name] == self.entries@[i]@ by {
                assert(self.entries@[i]@.name == key_at(self.keys@, i));
            }
            assert forall|name: Seq<char>| #[trigger]
                self@.files.dom().contains(name) implies exists|i: int|
                0 <= i < self.entries@.len() && (#[trigger] self.entries@[i])@.name == name by {
                let i = choose|i: int|
                    0 <= i < self.keys@.len() && #[trigger] key_at(self.keys@, i) == name;
                assert(self.entries@[i]@.name == key_at(self.keys@, i));
            }
        }
        &self.entries
    }

    /// Number of logical files.
    pub fn len(&self) -> (n: usize)
        ensures
            n == self.listing().len(),
    {
        self.entries.len()
    }

    /// Whether the archive holds no logical file.
    pub fn is_empty(&self) -> (b: bool)
        ensures
            b <==> self.listing().len() == 0,
    {
        self.entries.len() == 0
    }
}

/// The bytes of the logical file of that name, given the archive's index
/// and the contents of its chunk files. A name that the index does not hold
/// is not found; an entry that names a chunk that is not there, that ends
/// behind the end of its chunk or that ends before it starts makes the
/// archive invalid.
pub open spec fn located(model: IndexModel, chunks: Seq<Seq<u8>>, name: Seq<char>) -> Result<
    Seq<u8>,
    ErrorKind,
> {
    if !model.files.dom().contains(name) {
        Err(ErrorKind::LogicalFileNotFound)
    } else {
        let entry = model.files[name];
        if entry.chunk >= chunks.len() || entry.end > chunks[entry.chunk as int].len()
            || entry.start > entry.end {
            Err(ErrorKind::InvalidSmooshMeta)
        } else {
            Ok(chunks[entry.chunk as int].subrange(entry.start as int, entry.end as int))
        }
    }
}

/// A packed archive: its index and the contents of its chunk files, both
/// borrowed: the chunks from whoever mapped them.
pub struct SmooshReader<'a> {
    index: &'a SmooshIndex,
    chunks: Vec<&'a [u8]>,
}

impl<'a> SmooshReader<'a> {
    #[verifier::type_invariant]
    spec fn well_formed(&self) -> bool {
        self.chunks@.len() == self.index@.num_chunks
    }

    /// The archive's index.
    pub closed spec fn index_model(&self) -> IndexModel {
        self.index@
    }

    /// The entries of the index in the order in which they are kept.
    pub closed spec fn listing(&self) -> Seq<SmooshEntry> {
        self.index.listing()
    }

    /// The contents of the chunk files, by ordinal.
    pub closed spec fn chunk_bytes(&self) -> Seq<Seq<u8>> {
        Seq::new(self.chunks@.len(), |i: int| self.chunks@[i]@)
    }

    /// Opens an archive over its index and the contents of its chunk
    /// files. There must be as many chunks as the index announces, else the
    /// archive is invalid.
    pub fn open(index: &'a SmooshIndex, chunks: Vec<&'a [u8]>) -> (r: Result<
        Self,
        DruidSegmentError,
    >)
        ensures
            if chunks@.len() == index@.num_chunks {
                r matches Ok(reader) && reader.index_model() == index@ && reader.listing()
                    == index.listing() && reader.chunk_bytes() == Seq::new(
                    chunks@.len(),
                    |i: int| chunks@[i]@,
                )
            } else {
                r matches Err(e) && e.spec_kind() == ErrorKind::InvalidSmooshMeta
            },
    {
        if chunks.len() != index.num_chunks() {
            return invalid_meta("number of chunk files differs from the header");
        }
        Ok(SmooshReader { index, chunks })
    }

    /// The bytes of the logical file of that name.
    pub fn map_file(&self, name: &str) -> (r: Result<&'a [u8], DruidSegmentError>)
        ensures
            match located(self.index_model(), self.chunk_bytes(), name@) {
                Ok(bytes) => r matches Ok(slice) && slice@ == bytes,
                Err(kind) => r matches Err(e) && e.spec_kind() == kind,
            },
    {
        let entry = match self.index.entry(name) {
            Some(entry) => entry,
            None => {
                return Err(DruidSegmentError::LogicalFileNotFound(name.to_owned()));
            },
        };
        if entry.chunk_number >= self.chunks.len() {
            return invalid_meta("chunk of a logical file is out of range");
        }
        let chunk: &'a [u8] = self.chunks[entry.chunk_number];
        assert(self.chunk_bytes()[entry.chunk_number as int] == chunk@);
        if entry.end_offset > chunk.len() {
            return invalid_meta("end offset of a logical file exceeds its chunk");
        }
        if entry.start_offset > entry.end_offset {
            return invalid_meta("a logical file ends before it starts");
        }
        Ok(slice_subrange(chunk, entry.start_offset, entry.end_offset))
    }

    /// The names of all logical files, in ascending order.
    pub fn file_names(&self) -> (r: Vec<String>)
        ensures
            r@.len() == self.listing().len(),
            forall|i: int| 0 <= i < r@.len() ==> (#[trigger] r@[i])@ == self.listing()[i]@.name,
    {
        let entries = self.index.entries();
        let n = entries.len();
        let mut names: Vec<String> = Vec::with_capacity(n);
        let mut i: usize = 0;
        while i < n
            invariant
                i <= n == entries@.len(),
                names@.len() == i,
                forall|j: int| 0 <= j < i ==> (#[trigger] names@[j])@ == entries@[j]@.name,
            decreases n - i,
        {
            names.push(entries[i].name.clone());
            i = i + 1;
        }
        names
    }

    /// Whether the archive holds a logical file of that name.
    pub fn has_file(&self, name: &str) -> (b: bool)
        ensures
            b == self.index_model().files.dom().contains(name@),
    {
        self.index.has_file(name)
    }

    /// The entry of the logical file of that name, if there is one.
    pub fn entry(&self, name: &str) -> (r: Option<&SmooshEntry>)
        ensures
            match r {
                Some(entry) => self.index_model().files.dom().contains(name@) && entry@
                    == self.index_model().files[name@],
                None => !self.index_model().files.dom().contains(name@),
            },
    {
        self.index.entry(name)
    }

    /// All entries, in ascending order of name: each logical file once.
    pub fn entries(&self) -> (r: &Vec<SmooshEntry>)
        ensures
            r@ == self.listing(),
            forall|i: int, j: int|
                0 <= i < j < r@.len() ==> name_lt((#[trigger] r@[i])@.name, (#[trigger] r@[j])@.name),
            forall|i: int|
                0 <= i < r@.len() ==> self.index_model().files.dom().contains(
                    (#[trigger] r@[i])@.name,
                ) && self.index_model().files[r@[i]@.name] == r@[i]@,
            forall|name: Seq<char>| #[trigger]
                self.index_model().files.dom().contains(name) ==> exists|i: int|
                    0 <= i < r@.len() && (#[trigger] r@[i])@.name == name,
    {
        self.index.entries()
    }

    /// Number of logical files in the archive.
    pub fn len(&self) -> (n: usize)
        ensures
            n == self.listing().len(),
    {
        self.index.len()
    }

    /// Whether the archive holds no logical file.
    pub fn is_empty(&self) -> (b: bool)
        ensures
            b <==> self.listing().len() == 0,
    {
        self.index.is_empty()
    }
}

} // verus!
