use vstd::prelude::*;

use crate::magic_numbers::spec_from_tag;
use crate::magic_numbers::MagicNumber;
use vstd::string::StrSliceExecFns;

verus! {

/// The mode a container file is opened in. An operation opens its file in
/// exactly one mode and owns the handle until it returns.
#[derive(Clone, Copy, PartialEq, Eq, Structural, Hash, Debug)]
pub enum FileMode {
    /// The file must pre-exist and is read only.
    Read,
    /// The file must pre-exist and is opened for rewriting in place.
    Write,
    /// The file is created if absent, truncated if present, and writable.
    Create,
}

/// Why reading a container's bytes failed. Payload decoding is not part of
/// this layer: a payload comes back as raw bytes, and whatever decodes them
/// reports its own errors.
#[derive(Clone, Copy, PartialEq, Eq, Structural, Debug)]
pub enum ContainerError {
    /// The data holds fewer than the 4 bytes a magic number takes: the
    /// file is empty or truncated.
    Truncated,
    /// The leading 4 bytes match no registered kind; carries the raw
    /// numeric value found, for diagnostics.
    UnknownMagic(u32),
    /// The leading 4 bytes name a registered kind, but not the kind the
    /// caller meant to read.
    KindMismatch { found: MagicNumber, expected: MagicNumber },
}

/// The 4-byte big-endian encoding of a 32-bit tag.
pub open spec fn spec_magic_bytes(tag: u32) -> Seq<u8> {
    seq![(tag >> 24) as u8, (tag >> 16) as u8, (tag >> 8) as u8, tag as u8]
}

/// The 32-bit tag held big-endian in the first 4 bytes of `data`.
pub open spec fn spec_be_u32(data: Seq<u8>) -> u32 {
    (((data[0] as u32) << 24) | ((data[1] as u32) << 16) | ((data[2] as u32) << 8) | (
    data[3] as u32)) as u32
}

/// The container file layout: the kind's tag, big-endian, followed
/// immediately by the payload. No length prefix, no checksum.
pub open spec fn spec_container_bytes(kind: MagicNumber, payload: Seq<u8>) -> Seq<u8> {
    spec_magic_bytes(kind.spec_u32()) + payload
}

/// What reading a container as kind `expected` yields from the file's
/// bytes: the payload after the tag, or the one error the bytes force.
pub open spec fn spec_parse(expected: MagicNumber, data: Seq<u8>) -> Result<Seq<u8>, ContainerError> {
    if data.len() < 4 {
        Err(ContainerError::Truncated)
    } else {
        let tag = spec_be_u32(data);
        match spec_from_tag(tag) {
            None => Err(ContainerError::UnknownMagic(tag)),
            Some(found) => if found == expected {
                Ok(data.skip(4))
            } else {
                Err(ContainerError::KindMismatch { found, expected })
            },
        }
    }
}

/// Packing a tag big-endian and reading it back is the identity.
pub proof fn lemma_be_round_trip(tag: u32)
    ensures
        spec_be_u32(spec_magic_bytes(tag)) == tag,
{
    assert((((((tag >> 24) as u8) as u32) << 24) | ((((tag >> 16) as u8) as u32) << 16) | ((((tag
        >> 8) as u8) as u32) << 8) | (((tag as u8) as u32))) as u32 == tag) by (bit_vector);
}

/// Splits raw container data into its tag and its payload, without
/// interpreting either; validating the tag is the caller's job. Fails
/// exactly when the data is too short to hold a tag.
pub fn read_file(data: &Vec<u8>) -> (r: Result<(u32, Vec<u8>), ContainerError>)
    ensures
        match r {
            Ok((magic, payload)) => data@.len() >= 4 && magic == spec_be_u32(data@) && payload@
                == data@.skip(4),
            Err(e) => data@.len() < 4 && e == ContainerError::Truncated,
        },
{
    if data.len() < 4 {
        return Err(ContainerError::Truncated);
    }
    let magic: u32 = ((data[0] as u32) << 24) | ((data[1] as u32) << 16) | ((data[2] as u32) << 8)
        | (data[3] as u32);
    let mut payload: Vec<u8> = Vec::new();
    let mut i: usize = 4;
    while i < data.len()
        invariant
            4 <= i <= data@.len(),
            payload@ == data@.subrange(4, i as int),
        decreases data@.len() - i,
    {
        payload.push(data[i]);
        i = i + 1;
    }
    proof {
        assert(payload@ =~= data@.skip(4));
    }
    Ok((magic, payload))
}

/// A protocol object as this layer sees it: its kind and its
/// strict-encoded payload. What the payload means is the business of the
/// external strict-encoding capability; here it is opaque bytes, produced
/// only after the container's magic number has been validated.
#[derive(Clone, PartialEq, Eq, Debug)]
pub struct TypedObject {
    /// The kind of object the payload encodes.
    pub kind: MagicNumber,
    /// The strict-encoded payload, without the magic-number prefix.
    pub data: Vec<u8>,
}

impl TypedObject {
    /// Serializes the object into container-file form: the kind's tag,
    /// big-endian, followed by the payload. Writing the result to disk
    /// whole is the caller's job; the payload occupies everything past
    /// the first 4 bytes.
    pub fn write_file(&self) -> (r: Vec<u8>)
        ensures
            r@ == spec_container_bytes(self.kind, self.data@),
            r@.len() == self.data@.len() + 4,
    {
        let tag = self.kind.to_u32();
        let mut r: Vec<u8> = Vec::new();
        r.push((tag >> 24) as u8);
        r.push((tag >> 16) as u8);
        r.push((tag >> 8) as u8);
        r.push(tag as u8);
        let mut i: usize = 0;
        while i < self.data.len()
            invariant
                0 <= i <= self.data@.len(),
                r@ == spec_magic_bytes(self.kind.spec_u32()) + self.data@.subrange(0, i as int),
            decreases self.data@.len() - i,
        {
            r.push(self.data[i]);
            proof {
                assert(spec_magic_bytes(self.kind.spec_u32()) + self.data@.subrange(
                    0,
                    i as int,
                ).push(self.data@[i as int]) =~= spec_magic_bytes(self.kind.spec_u32())
                    + self.data@.subrange(0, i + 1));
            }
            i = i + 1;
        }
        proof {
            assert(r@ =~= spec_container_bytes(self.kind, self.data@));
        }
        r
    }

    /// Deserializes container-file bytes as an object of kind `expected`:
    /// validates that the leading 4 bytes are a known magic number and name
    /// that kind, then takes the rest as the payload. Truncated data, an
    /// unknown tag, and a recognized tag of the wrong kind each fail with
    /// their own error, as [`spec_parse`] lays out.
    pub fn read_file(expected: MagicNumber, data: &Vec<u8>) -> (r: Result<TypedObject, ContainerError>)
        ensures
            match r {
                Ok(obj) => obj.kind == expected && spec_parse(expected, data@) == Ok::<
                    Seq<u8>,
                    ContainerError,
                >(obj.data@),
                Err(e) => spec_parse(expected, data@) == Err::<Seq<u8>, ContainerError>(e),
            },
    {
        let (magic, payload) = match read_file(data) {
            Ok(pair) => pair,
            Err(e) => {
                return Err(e);
            },
        };
        let found = match MagicNumber::try_from(magic) {
            Ok(found) => found,
            Err(invalid) => {
                return Err(ContainerError::UnknownMagic(invalid));
            },
        };
        if found != expected {
            return Err(ContainerError::KindMismatch { found, expected });
        }
        Ok(TypedObject { kind: expected, data: payload })
    }
}

/// Round-trip law: serializing an object of any kind and reading the bytes
/// back expecting that same kind succeeds and yields the payload unchanged.
pub proof fn lemma_container_round_trip(kind: MagicNumber, payload: Seq<u8>)
    ensures
        spec_parse(kind, spec_container_bytes(kind, payload)) == Ok::<Seq<u8>, ContainerError>(
            payload,
        ),
{
    let file = spec_container_bytes(kind, payload);
    lemma_be_round_trip(kind.spec_u32());
    assert(spec_magic_bytes(kind.spec_u32()) =~= file.subrange(0, 4));
    assert(spec_be_u32(file) == spec_be_u32(spec_magic_bytes(kind.spec_u32())));
    crate::magic_numbers::lemma_tag_round_trip(kind);
    assert(file.skip(4) =~= payload);
}

/// Kind-mismatch detection: serializing an object of one kind and reading
/// the bytes back expecting a different kind fails with a mismatch error
/// naming the kind found and the kind expected — never with an unknown-tag
/// error and never with success.
pub proof fn lemma_kind_mismatch(kind: MagicNumber, expected: MagicNumber, payload: Seq<u8>)
    requires
        kind != expected,
    ensures
        spec_parse(expected, spec_container_bytes(kind, payload)) == Err::<Seq<u8>, ContainerError>(
            ContainerError::KindMismatch { found: kind, expected },
        ),
{
    let file = spec_container_bytes(kind, payload);
    lemma_be_round_trip(kind.spec_u32());
    assert(spec_magic_bytes(kind.spec_u32()) =~= file.subrange(0, 4));
    assert(spec_be_u32(file) == spec_be_u32(spec_magic_bytes(kind.spec_u32())));
    crate::magic_numbers::lemma_tag_round_trip(kind);
}

/// Truncated-file detection: reading container data fails with the
/// short-read error exactly when the data holds fewer than the 4 bytes a
/// magic number takes, whatever kind was expected.
pub proof fn lemma_truncated(expected: MagicNumber, data: Seq<u8>)
    ensures
        (spec_parse(expected, data) == Err::<Seq<u8>, ContainerError>(ContainerError::Truncated))
            <==> data.len() < 4,
{
}

/// One directory entry as the filesystem enumeration reports it: the
/// entry's own name (not its full path) and whether it is a directory.
/// Entries whose names cannot be represented as text are expected to be
/// skipped by whoever enumerates the directory, rather than aborting the
/// whole listing.
pub struct DirEntryInfo {
    /// The entry's file name.
    pub name: String,
    /// Whether the entry is a directory.
    pub is_dir: bool,
}

/// The position of the last `.` in `name`, or `-1` when it has none.
pub open spec fn spec_last_dot(name: Seq<char>) -> int
    decreases name.len(),
{
    if name.len() == 0 {
        -1
    } else if name.last() == '.' {
        name.len() - 1
    } else {
        spec_last_dot(name.drop_last())
    }
}

/// The extension of a file name — the part after the last `.` — or the
/// empty sequence when the name has none: no dot at all, or only a dot in
/// the leading position (a hidden file such as `.config` has no
/// extension). A name ending in `.` has the empty extension, which is
/// distinct here only in that both compare equal to an empty filter.
pub open spec fn spec_extension_or_empty(name: Seq<char>) -> Seq<char> {
    let d = spec_last_dot(name);
    if d <= 0 {
        Seq::empty()
    } else {
        name.skip(d + 1)
    }
}

/// Whether a listing keeps an entry: directories are always skipped, and
/// under an extension filter so is every file whose extension differs from
/// the filter (case-sensitively; the filter carries no leading dot).
pub open spec fn spec_keeps(name: Seq<char>, is_dir: bool, filter: Option<Seq<char>>) -> bool {
    &&& !is_dir
    &&& match filter {
        None => true,
        Some(f) => spec_extension_or_empty(name) == f,
    }
}

/// The names a listing yields from the given entries, in the order the
/// enumeration yielded them: each kept entry's name, nothing else.
pub open spec fn spec_dir_filenames(
    entries: Seq<(Seq<char>, bool)>,
    filter: Option<Seq<char>>,
) -> Seq<Seq<char>>
    decreases entries.len(),
{
    if entries.len() == 0 {
        Seq::empty()
    } else {
        let prefix = spec_dir_filenames(entries.drop_last(), filter);
        if spec_keeps(entries.last().0, entries.last().1, filter) {
            prefix.push(entries.last().0)
        } else {
            prefix
        }
    }
}

/// Finds the last `.` in `name`, reported by character position.
fn last_dot(name: &str) -> (r: Option<usize>)
    ensures
        match r {
            Some(d) => spec_last_dot(name@) == d && d < name@.len(),
            None => spec_last_dot(name@) == -1,
        },
{
    let n = name.unicode_len();
    let mut j: usize = n;
    proof {
        assert(name@.take(n as int) =~= name@);
    }
    loop
        invariant
            0 <= j <= n,
            n == name@.len(),
            spec_last_dot(name@) == spec_last_dot(name@.take(j as int)),
        decreases j,
    {
        if j == 0 {
            return None;
        }
        let c = name.get_char(j - 1);
        proof {
            assert(name@.take(j as int).last() == name@[j - 1]);
        }
        if c == '.' {
            return Some(j - 1);
        }
        proof {
            assert(name@.take(j as int).drop_last() =~= name@.take(j - 1));
        }
        j = j - 1;
    }
}

/// Whether the characters of `a` from position `from` onward spell
/// exactly `b`.
fn suffix_matches(a: &str, from: usize, b: &str) -> (r: bool)
    requires
        from <= a@.len(),
    ensures
        r == (a@.skip(from as int) == b@),
{
    let n = a.unicode_len();
    let m = b.unicode_len();
    if n - from != m {
        return false;
    }
    let mut i: usize = 0;
    while i < m
        invariant
            0 <= i <= m,
            n == a@.len(),
            m == b@.len(),
            from + m == n,
            forall|t: int| 0 <= t < i ==> a@[from + t] == b@[t],
        decreases m - i,
    {
        if a.get_char(from + i) != b.get_char(i) {
            proof {
                assert(a@.skip(from as int)[i as int] == a@[from + i]);
            }
            return false;
        }
        i = i + 1;
    }
    proof {
        assert forall|t: int| 0 <= t < b@.len() implies a@.skip(from as int)[t] == b@[t] by {
            assert(a@[from + t] == b@[t]);
        }
        assert(a@.skip(from as int) =~= b@);
    }
    true
}

/// Whether `name`'s extension is exactly `filter`; a name without an
/// extension matches only the empty filter.
pub fn extension_matches(name: &str, filter: &str) -> (r: bool)
    ensures
        r == (spec_extension_or_empty(name@) == filter@),
{
    let n = name.unicode_len();
    let has_ext = match last_dot(name) {
        None => None,
        Some(d) => if d == 0 {
            None
        } else {
            Some(d)
        },
    };
    match has_ext {
        None => {
            let r = filter.unicode_len() == 0;
            proof {
                if filter@.len() == 0 {
                    assert(spec_extension_or_empty(name@) =~= filter@);
                }
            }
            r
        },
        Some(d) => {
            proof {
                assert(d < n);
            }
            suffix_matches(name, d + 1, filter)
        },
    }
}

/// Lists the names of the regular files among the given directory
/// entries, in enumeration order, keeping exactly those an extension
/// filter admits: every non-directory entry when the filter is `None`,
/// and otherwise the entries whose extension equals the filter, where an
/// entry without an extension counts as having the empty one. The caller
/// enumerates the directory and hands its entries in; the result holds
/// names only, not paths, and in whatever order the entries came.
pub fn read_dir_filenames(entries: &Vec<DirEntryInfo>, filter_extensions: Option<&str>) -> (r: Vec<
    String,
>)
    ensures
        r@.map_values(|s: String| s@) == spec_dir_filenames(
            entries@.map_values(|e: DirEntryInfo| (e.name@, e.is_dir)),
            match filter_extensions {
                Some(f) => Some(f@),
                None => None,
            },
        ),
{
    let ghost mseq = entries@.map_values(|e: DirEntryInfo| (e.name@, e.is_dir));
    let ghost gfilter = match filter_extensions {
        Some(f) => Some(f@),
        None => None,
    };
    let mut list: Vec<String> = Vec::new();
    let mut k: usize = 0;
    proof {
        assert(mseq.take(0) =~= Seq::<(Seq<char>, bool)>::empty());
    }
    while k < entries.len()
        invariant
            0 <= k <= entries@.len(),
            mseq == entries@.map_values(|e: DirEntryInfo| (e.name@, e.is_dir)),
            gfilter == match filter_extensions {
                Some(f) => Some(f@),
                None => None,
            },
            list@.map_values(|s: String| s@) == spec_dir_filenames(mseq.take(k as int), gfilter),
        decreases entries@.len() - k,
    {
        let entry = &entries[k];
        let keep = if entry.is_dir {
            false
        } else {
            match filter_extensions {
                None => true,
                Some(f) => extension_matches(entry.name.as_str(), f),
            }
        };
        proof {
            assert(mseq[k as int] == (entry.name@, entry.is_dir));
            assert(keep == spec_keeps(mseq[k as int].0, mseq[k as int].1, gfilter));
            assert(mseq.take(k + 1).drop_last() =~= mseq.take(k as int));
            assert(mseq.take(k + 1).last() == mseq[k as int]);
        }
        if keep {
            let ghost old_list = list@;
            list.push(entry.name.clone());
            proof {
                assert(list@.map_values(|s: String| s@) =~= old_list.map_values(|s: String| s@)
                    .push(entry.name@));
            }
        }
        k = k + 1;
    }
    proof {
        assert(mseq.take(entries@.len() as int) =~= mseq);
    }
    list
}

} // verus!
