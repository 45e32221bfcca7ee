//! The classifier's assets: an xz-compressed tar archive, stored in chunks,
//! that holds `model.onnx` and `tokenizer.json`.
use vstd::prelude::*;

use std::io::Read;

use crate::paths::{
    byte_file_name, file_name_bytes, law_byte_file_name_ignores_directories, law_plain_name_is_its_file_name,
};
use crate::text::{chars_of, utf8_text};

verus! {

// ---------------------------------------------------------------------------
// Outside types
// ---------------------------------------------------------------------------

#[verifier::external_type_specification]
#[verifier::external_body]
pub struct ExIoError(std::io::Error);

/// A `tar::Archive` over bytes in memory. Verus refuses to declare the tar
/// types themselves (their reader parameter is bound by `std::io::Read`),
/// so the archive is held, opaque, in a struct of its own.
#[verifier::external_body]
pub struct TarArchive<'a> {
    archive: tar::Archive<&'a [u8]>,
}

/// The `tar::Entries` iterator of a `TarArchive`, together with the entry
/// it handed out last (tar reads all entries from one stream, so an entry
/// is read before the iterator moves on; keeping it here keeps that order).
#[verifier::external_body]
pub struct TarEntries<'b, 'a: 'b> {
    entries: tar::Entries<'b, &'a [u8]>,
    current: Option<tar::Entry<'b, &'a [u8]>>,
}

// ---------------------------------------------------------------------------
// Calls into xz2, tar and std::io
// ---------------------------------------------------------------------------

/// What decompressing the xz stream `data` gives: the bytes, or `None` when
/// `data` is not a valid xz stream.
pub uninterp spec fn xz_decoded(data: Seq<u8>) -> Option<Seq<u8>>;

/// Reads an `xz2::read::XzDecoder` over `data` to its end. Decompression
/// is a function of `data`: named `xz_decoded`, it fails exactly when
/// that name is `None`.
#[verifier::external_body]
fn xz_decompress(data: &[u8]) -> (r: Result<Vec<u8>, std::io::Error>)
    ensures
        r is Ok <==> xz_decoded(data@) is Some,
        r matches Ok(v) ==> xz_decoded(data@) == Some(v@),
{
    let mut out = Vec::new();
    match xz2::read::XzDecoder::new(data).read_to_end(&mut out) {
        Ok(_) => Ok(out),
        Err(e) => Err(e),
    }
}

/// The text of an I/O error (its `Display`). Nothing is claimed of it.
#[verifier::external_body]
fn io_error_text(e: &std::io::Error) -> String {
    e.to_string()
}

/// What the tar reader lists for the archive bytes `data`: one item for each
/// call of `Entries::next` on a fresh `tar::Archive` over `data`, until it
/// answers `None`. An entry gives `(true, path, data)`: `path` is what
/// `Entry::path_bytes` gives, `data` what reading the entry to its end gives
/// (`None` when that read fails). A failure gives an item whose first
/// component is `false`; it is the last item, as the reader stops there.
pub uninterp spec fn tar_listing(data: Seq<u8>) -> Seq<(bool, Seq<u8>, Option<Seq<u8>>)>;

/// The bytes that a `TarArchive` reads.
pub uninterp spec fn archive_bytes(archive: TarArchive) -> Seq<u8>;

/// Whether nothing has been read yet from a `TarArchive`.
pub uninterp spec fn archive_unread(archive: TarArchive) -> bool;

/// The items of the tar listing that `TarEntries` has still to hand out.
pub uninterp spec fn entries_remaining(entries: TarEntries) -> Seq<(bool, Seq<u8>, Option<Seq<u8>>)>;

/// The entry that `TarEntries` handed out last, while its data is unread:
/// its path bytes and its data, as in the tar listing.
pub uninterp spec fn entries_current(entries: TarEntries) -> Option<(Seq<u8>, Option<Seq<u8>>)>;

/// `tar::Archive::new` over the bytes of an archive: an archive that has
/// read nothing of `data` yet.
#[verifier::external_body]
fn open_archive<'a>(data: &'a [u8]) -> (r: TarArchive<'a>)
    ensures
        archive_bytes(r) == data@,
        archive_unread(r),
{
    TarArchive { archive: tar::Archive::new(data) }
}

/// `tar::Archive::entries`, which fails only when the archive has been read
/// from (it checks that its position is 0). On an unread archive it gives
/// the iterator over the whole tar listing of the archive's bytes.
#[verifier::external_body]
fn archive_entries<'b, 'a: 'b>(archive: &'b mut TarArchive<'a>) -> (r: Result<TarEntries<'b, 'a>, std::io::Error>)
    requires
        archive_unread(*old(archive)),
    ensures
        r is Ok,
        r matches Ok(es) ==> entries_remaining(es) == tar_listing(archive_bytes(*old(archive))),
        r matches Ok(es) ==> entries_current(es) is None,
{
    match archive.archive.entries() {
        Ok(entries) => Ok(TarEntries { entries, current: None }),
        Err(e) => Err(e),
    }
}

/// `Iterator::next` on the entries: hands out the next item of the listing
/// (an entry, kept as the current one, or a failure), or `None` when the
/// listing is exhausted.
#[verifier::external_body]
fn next_entry<'b, 'a: 'b>(entries: &mut TarEntries<'b, 'a>) -> (r: Option<Result<(), std::io::Error>>)
    ensures
        r is None <==> entries_remaining(*old(entries)).len() == 0,
        r is Some ==> entries_remaining(*final(entries)) == entries_remaining(*old(entries)).drop_first(),
        r matches Some(Ok(_)) ==> entries_remaining(*old(entries))[0].0 && entries_current(*final(entries))
            == Some((entries_remaining(*old(entries))[0].1, entries_remaining(*old(entries))[0].2)),
        r matches Some(Err(_)) ==> !entries_remaining(*old(entries))[0].0,
{
    match entries.entries.next() {
        Some(Ok(entry)) => {
            entries.current = Some(entry);
            Some(Ok(()))
        },
        Some(Err(e)) => Some(Err(e)),
        None => None,
    }
}

/// `tar::Entry::path_bytes` of the current entry: its raw path.
#[verifier::external_body]
fn entry_path_bytes<'b, 'a: 'b>(entries: &TarEntries<'b, 'a>) -> (r: Vec<u8>)
    requires
        entries_current(*entries) is Some,
    ensures
        r@ == entries_current(*entries).unwrap().0,
{
    match &entries.current {
        Some(entry) => entry.path_bytes().into_owned(),
        None => Vec::new(),
    }
}

/// Reads the current entry to its end (`Read::read_to_end`), which uses it
/// up. The listing that remains is unchanged: tar finds the next header
/// from the entry's recorded size, however much of it was read.
#[verifier::external_body]
fn read_entry<'b, 'a: 'b>(entries: &mut TarEntries<'b, 'a>) -> (r: Result<Vec<u8>, std::io::Error>)
    requires
        entries_current(*old(entries)) is Some,
    ensures
        r is Ok <==> entries_current(*old(entries)).unwrap().1 is Some,
        r matches Ok(d) ==> entries_current(*old(entries)).unwrap().1 == Some(d@),
        entries_remaining(*final(entries)) == entries_remaining(*old(entries)),
        entries_current(*final(entries)) is None,
{
    let mut buf = Vec::new();
    match entries.current.take() {
        Some(mut entry) => match entry.read_to_end(&mut buf) {
            Ok(_) => Ok(buf),
            Err(e) => Err(e),
        },
        None => Ok(buf),
    }
}

// ---------------------------------------------------------------------------
// Errors
// ---------------------------------------------------------------------------

/// Why the assets could not be had.
#[derive(Debug)]
pub enum AssetError {
    /// The xz stream is invalid.
    Decompress { cause: String },
    /// The tar entries could not be listed.
    Entries { cause: String },
    /// A tar entry could not be read.
    Entry { cause: String },
    /// A tar entry's data could not be read.
    ReadEntry { cause: String },
    /// The archive has no `model.onnx`.
    ModelMissing,
    /// The archive has no `tokenizer.json`.
    TokenizerMissing,
}

/// What failed, in a few words (the cause, if any, aside).
pub open spec fn asset_error_message(e: AssetError) -> Seq<char> {
    match e {
        AssetError::Decompress { .. } => "xz decompress"@,
        AssetError::Entries { .. } => "read tar entries"@,
        AssetError::Entry { .. } => "tar entry"@,
        AssetError::ReadEntry { .. } => "read entry"@,
        AssetError::ModelMissing => "model.onnx missing from archive"@,
        AssetError::TokenizerMissing => "tokenizer.json missing from archive"@,
    }
}

impl AssetError {
    /// What failed, in a few words.
    pub fn message(&self) -> (s: String)
        ensures
            s@ == asset_error_message(*self),
    {
        match self {
            AssetError::Decompress { .. } => "xz decompress".to_owned(),
            AssetError::Entries { .. } => "read tar entries".to_owned(),
            AssetError::Entry { .. } => "tar entry".to_owned(),
            AssetError::ReadEntry { .. } => "read entry".to_owned(),
            AssetError::ModelMissing => "model.onnx missing from archive".to_owned(),
            AssetError::TokenizerMissing => "tokenizer.json missing from archive".to_owned(),
        }
    }
}

/// The kinds of `AssetError`, without their causes.
#[derive(Debug, Clone, Copy)]
pub enum AssetFailure {
    Decompress,
    Entries,
    Entry,
    ReadEntry,
    ModelMissing,
    TokenizerMissing,
}

/// The kind of an `AssetError`.
pub open spec fn failure_of(e: AssetError) -> AssetFailure {
    match e {
        AssetError::Decompress { .. } => AssetFailure::Decompress,
        AssetError::Entries { .. } => AssetFailure::Entries,
        AssetError::Entry { .. } => AssetFailure::Entry,
        AssetError::ReadEntry { .. } => AssetFailure::ReadEntry,
        AssetError::ModelMissing => AssetFailure::ModelMissing,
        AssetError::TokenizerMissing => AssetFailure::TokenizerMissing,
    }
}

/// An outcome of unpacking as plain values: the model and tokenizer bytes,
/// or the kind of failure.
pub open spec fn outcome_view(r: Result<(Vec<u8>, Vec<u8>), AssetError>) -> Result<(Seq<u8>, Seq<u8>), AssetFailure> {
    match r {
        Ok((m, t)) => Ok((m@, t@)),
        Err(e) => Err(failure_of(e)),
    }
}

// ---------------------------------------------------------------------------
// Chunks
// ---------------------------------------------------------------------------

pub open spec fn chunk_views(chunks: Seq<&[u8]>) -> Seq<Seq<u8>> {
    chunks.map_values(|c: &[u8]| c@)
}

/// The chunks joined in order.
pub fn concat_chunks(chunks: &[&[u8]]) -> (data: Vec<u8>)
    ensures
        data@ == chunk_views(chunks@).flatten_alt(),
{
    let mut data: Vec<u8> = Vec::new();
    let mut i: usize = 0;
    while i < chunks.len()
        invariant
            i <= chunks@.len(),
            data@ == chunk_views(chunks@).take(i as int).flatten_alt(),
        decreases chunks@.len() - i,
    {
        let chunk: &[u8] = chunks[i];
        let ghost before = data@;
        let mut k: usize = 0;
        while k < chunk.len()
            invariant
                k <= chunk@.len(),
                data@ == before + chunk@.take(k as int),
            decreases chunk@.len() - k,
        {
            data.push(chunk[k]);
            assert(chunk@.take(k + 1) =~= chunk@.take(k as int).push(chunk@[k as int]));
            k = k + 1;
        }
        assert(chunk@.take(chunk@.len() as int) =~= chunk@);
        assert(chunk_views(chunks@).take(i + 1).drop_last() =~= chunk_views(chunks@).take(i as int));
        i = i + 1;
    }
    assert(chunk_views(chunks@).take(chunks@.len() as int) =~= chunk_views(chunks@));
    data
}

// ---------------------------------------------------------------------------
// Members
// ---------------------------------------------------------------------------

/// A file of the archive: its file name (never empty) and its data.
#[derive(Debug)]
pub struct ArchiveMember {
    pub name: String,
    pub data: Vec<u8>,
}

/// Members as plain values: name and data.
pub open spec fn member_views(members: Seq<ArchiveMember>) -> Seq<(Seq<char>, Seq<u8>)> {
    members.map_values(|m: ArchiveMember| (m.name@, m.data@))
}

/// The data of the last member named `name`, if any.
pub open spec fn member_named(members: Seq<(Seq<char>, Seq<u8>)>, name: Seq<char>) -> Option<Seq<u8>>
    decreases members.len(),
{
    if members.len() == 0 {
        None
    } else if members.last().0 == name {
        Some(members.last().1)
    } else {
        member_named(members.drop_last(), name)
    }
}

/// The data of the last member of `members` named `name`: members are kept
/// in archive order, and a later member takes the place of an earlier one
/// of the same name, as storing them in a map by name would.
pub fn find_member(members: &Vec<ArchiveMember>, name: &str) -> (r: Option<Vec<u8>>)
    ensures
        r is None <==> member_named(member_views(members@), name@) is None,
        r matches Some(d) ==> member_named(member_views(members@), name@) == Some(d@),
{
    let ghost views = member_views(members@);
    let want = chars_of(name);
    let mut j: usize = members.len();
    assert(views.take(views.len() as int) =~= views);
    while j > 0
        invariant
            j <= members@.len(),
            views == member_views(members@),
            want@ == name@,
            member_named(views, name@) == member_named(views.take(j as int), name@),
        decreases j,
    {
        let member = &members[j - 1];
        let have = chars_of(member.name.as_str());
        assert(views.take(j as int).last() == views[j - 1]);
        if crate::text::same_chars(&have, &want) {
            return Some(member.data.clone());
        }
        assert(views.take(j as int).drop_last() =~= views.take(j - 1));
        j = j - 1;
    }
    None
}

/// The model and the tokenizer among `members`, as plain values: the data
/// of the last `model.onnx` and of the last `tokenizer.json`; the first of
/// them that is missing is the failure.
pub open spec fn select_view(members: Seq<(Seq<char>, Seq<u8>)>) -> Result<(Seq<u8>, Seq<u8>), AssetFailure> {
    match member_named(members, "model.onnx"@) {
        None => Err(AssetFailure::ModelMissing),
        Some(m) => match member_named(members, "tokenizer.json"@) {
            None => Err(AssetFailure::TokenizerMissing),
            Some(t) => Ok((m, t)),
        },
    }
}

/// The model and the tokenizer among the members: the data of the last
/// `model.onnx` and of the last `tokenizer.json`; fails on the first of
/// them that is missing.
pub fn select_model_assets(members: &Vec<ArchiveMember>) -> (r: Result<(Vec<u8>, Vec<u8>), AssetError>)
    ensures
        outcome_view(r) == select_view(member_views(members@)),
{
    let model = match find_member(members, "model.onnx") {
        Some(m) => m,
        None => {
            return Err(AssetError::ModelMissing);
        },
    };
    let tokenizer = match find_member(members, "tokenizer.json") {
        Some(t) => t,
        None => {
            return Err(AssetError::TokenizerMissing);
        },
    };
    Ok((model, tokenizer))
}

/// The name a tar entry is kept under: the file name of its path, when
/// that is valid UTF-8 (a file name is never empty). Without one the entry
/// is passed over.
pub open spec fn member_name(path: Seq<u8>) -> Option<Seq<char>> {
    match byte_file_name(path) {
        Some(n) => if vstd::utf8::valid_utf8(n) {
            Some(vstd::utf8::decode_utf8(n))
        } else {
            None
        },
        None => None,
    }
}

/// An entry is kept under its file name whenever that is valid UTF-8, and
/// the directories before it, however written (`./`, `assets/`, ...), do
/// not change it: an entry at `q/p` is kept under the name of `p`.
pub proof fn law_member_named_by_file_name(q: Seq<u8>, p: Seq<u8>, n: Seq<u8>)
    ensures
        byte_file_name(p) == Some(n) && vstd::utf8::valid_utf8(n) ==> member_name(p) == Some(
            vstd::utf8::decode_utf8(n),
        ),
        byte_file_name(p) is Some ==> member_name(q + seq![47u8] + p) == member_name(p),
{
    if byte_file_name(p) is Some {
        law_byte_file_name_ignores_directories(q, p);
    }
}

/// An entry whose path ends, after any directories, in a plain UTF-8 name
/// (not `.` or `..`) is kept under that name: `./model.onnx` and
/// `assets/model.onnx` are both kept as `model.onnx`.
pub proof fn law_entry_kept_under_plain_name(q: Seq<u8>, name: Seq<u8>)
    requires
        name.len() > 0,
        forall|i: int| 0 <= i < name.len() ==> name[i] != 47u8,
        name != seq![46u8],
        name != seq![46u8, 46u8],
        vstd::utf8::valid_utf8(name),
    ensures
        member_name(name) == Some(vstd::utf8::decode_utf8(name)),
        member_name(q + seq![47u8] + name) == Some(vstd::utf8::decode_utf8(name)),
{
    law_plain_name_is_its_file_name(name);
    law_byte_file_name_ignores_directories(q, name);
}

/// The members that a tar listing gives, in order: each entry with a name,
/// with its data; a failure of the reader, or of reading a named entry's
/// data, ends it with that failure.
pub open spec fn listing_members(items: Seq<(bool, Seq<u8>, Option<Seq<u8>>)>) -> Result<Seq<(Seq<char>, Seq<u8>)>, AssetFailure>
    decreases items.len(),
{
    if items.len() == 0 {
        Ok(seq![])
    } else if !items[0].0 {
        Err(AssetFailure::Entry)
    } else {
        match member_name(items[0].1) {
            None => listing_members(items.drop_first()),
            Some(n) => match items[0].2 {
                None => Err(AssetFailure::ReadEntry),
                Some(d) => prepend_members(seq![(n, d)], listing_members(items.drop_first())),
            },
        }
    }
}

/// `first` put before the members of `rest`, when `rest` is not a failure.
pub open spec fn prepend_members(
    first: Seq<(Seq<char>, Seq<u8>)>,
    rest: Result<Seq<(Seq<char>, Seq<u8>)>, AssetFailure>,
) -> Result<Seq<(Seq<char>, Seq<u8>)>, AssetFailure> {
    match rest {
        Ok(ms) => Ok(first + ms),
        Err(f) => Err(f),
    }
}

/// A tar listing fails only with `Entry` or `ReadEntry`.
proof fn lemma_listing_failures(items: Seq<(bool, Seq<u8>, Option<Seq<u8>>)>)
    ensures
        listing_members(items) matches Err(f) ==> (f is Entry || f is ReadEntry),
    decreases items.len(),
{
    if items.len() > 0 {
        lemma_listing_failures(items.drop_first());
    }
}

proof fn lemma_prepend_push(
    ms: Seq<(Seq<char>, Seq<u8>)>,
    x: (Seq<char>, Seq<u8>),
    rest: Result<Seq<(Seq<char>, Seq<u8>)>, AssetFailure>,
)
    ensures
        prepend_members(ms, prepend_members(seq![x], rest)) == prepend_members(ms.push(x), rest),
{
    if let Ok(r) = rest {
        assert(ms + (seq![x] + r) =~= ms.push(x) + r);
    }
}

/// The members of two runs of tar items, one after the other, are those of
/// the first run followed by those of the second; a failure in the first
/// run ends both.
pub proof fn law_listing_members_concatenate(
    a: Seq<(bool, Seq<u8>, Option<Seq<u8>>)>,
    b: Seq<(bool, Seq<u8>, Option<Seq<u8>>)>,
)
    ensures
        listing_members(a + b) == (match listing_members(a) {
            Ok(x) => prepend_members(x, listing_members(b)),
            Err(f) => Err(f),
        }),
    decreases a.len(),
{
    if a.len() == 0 {
        assert(a + b =~= b);
        if let Ok(y) = listing_members(b) {
            assert(Seq::<(Seq<char>, Seq<u8>)>::empty() + y =~= y);
        }
    } else {
        assert((a + b)[0] == a[0]);
        assert((a + b).drop_first() =~= a.drop_first() + b);
        law_listing_members_concatenate(a.drop_first(), b);
        if let Ok(x) = listing_members(a.drop_first()) {
            if let Some(n) = member_name(a[0].1) {
                if let Some(d) = a[0].2 {
                    if let Ok(y) = listing_members(b) {
                        assert(seq![(n, d)] + (x + y) =~= (seq![(n, d)] + x) + y);
                    }
                }
            }
        }
    }
}

/// One tar entry read whole gives one member, under its name, with its
/// data, when it has a name, and none otherwise; an entry whose data cannot
/// be read fails only when it has a name; a failure of the reader fails.
pub proof fn law_listing_member_of_one_entry(ok: bool, path: Seq<u8>, data: Option<Seq<u8>>)
    ensures
        !ok ==> listing_members(seq![(ok, path, data)]) == Err::<Seq<(Seq<char>, Seq<u8>)>, AssetFailure>(
            AssetFailure::Entry,
        ),
        ok && member_name(path) is None ==> listing_members(seq![(ok, path, data)]) == Ok::<
            Seq<(Seq<char>, Seq<u8>)>,
            AssetFailure,
        >(seq![]),
        ok && member_name(path) is Some && data is None ==> listing_members(seq![(ok, path, data)]) == Err::<
            Seq<(Seq<char>, Seq<u8>)>,
            AssetFailure,
        >(AssetFailure::ReadEntry),
        ok && member_name(path) is Some && data is Some ==> listing_members(seq![(ok, path, data)]) == Ok::<
            Seq<(Seq<char>, Seq<u8>)>,
            AssetFailure,
        >(seq![(member_name(path).unwrap(), data.unwrap())]),
{
    let items = seq![(ok, path, data)];
    reveal_with_fuel(listing_members, 2);
    assert(items.drop_first() =~= Seq::<(bool, Seq<u8>, Option<Seq<u8>>)>::empty());
    if ok && member_name(path) is Some && data is Some {
        assert(seq![(member_name(path).unwrap(), data.unwrap())] + Seq::<(Seq<char>, Seq<u8>)>::empty()
            =~= seq![(member_name(path).unwrap(), data.unwrap())]);
    }
}

/// The last member of a name wins: a member added last is what its name
/// finds, and it does not change what other names find.
pub proof fn law_last_member_wins(ms: Seq<(Seq<char>, Seq<u8>)>, name: Seq<char>, data: Seq<u8>, other: Seq<char>)
    ensures
        member_named(ms.push((name, data)), name) == Some(data),
        other != name ==> member_named(ms.push((name, data)), other) == member_named(ms, other),
{
    assert(ms.push((name, data)).drop_last() =~= ms);
}

/// Choosing the assets: both found gives the last model and the last
/// tokenizer, in that order; a missing model is reported before a missing
/// tokenizer.
pub proof fn law_select_assets(ms: Seq<(Seq<char>, Seq<u8>)>)
    ensures
        member_named(ms, "model.onnx"@) is None ==> select_view(ms) == Err::<(Seq<u8>, Seq<u8>), AssetFailure>(
            AssetFailure::ModelMissing,
        ),
        member_named(ms, "model.onnx"@) is Some && member_named(ms, "tokenizer.json"@) is None ==> select_view(ms)
            == Err::<(Seq<u8>, Seq<u8>), AssetFailure>(AssetFailure::TokenizerMissing),
        (select_view(ms) is Ok) <==> (member_named(ms, "model.onnx"@) is Some && member_named(
            ms,
            "tokenizer.json"@,
        ) is Some),
        select_view(ms) matches Ok((m, t)) ==> member_named(ms, "model.onnx"@) == Some(m) && member_named(
            ms,
            "tokenizer.json"@,
        ) == Some(t),
{
}

/// Unpacking succeeds exactly when the stream decompresses, the tar reads
/// without failure, and both files are among its named entries; it then
/// gives the last of each.
pub proof fn law_unpack_succeeds_exactly_with_both_files(compressed: Seq<u8>)
    ensures
        (unpacked(compressed) is Ok) <==> (xz_decoded(compressed) matches Some(t) && listing_members(
            tar_listing(t),
        ) matches Ok(ms) && member_named(ms, "model.onnx"@) is Some && member_named(ms, "tokenizer.json"@) is Some),
        xz_decoded(compressed) is None ==> unpacked(compressed) == Err::<(Seq<u8>, Seq<u8>), AssetFailure>(
            AssetFailure::Decompress,
        ),
{
    if let Some(t) = xz_decoded(compressed) {
        if let Ok(ms) = listing_members(tar_listing(t)) {
            law_select_assets(ms);
        }
    }
}

/// Reads the members of a tar archive, in order: the entries that have a
/// file name, with their data (see `listing_members`).
fn read_members(tar_bytes: &[u8]) -> (r: Result<Vec<ArchiveMember>, AssetError>)
    ensures
        r matches Ok(m) ==> listing_members(tar_listing(tar_bytes@)) == Ok::<
            Seq<(Seq<char>, Seq<u8>)>,
            AssetFailure,
        >(member_views(m@)),
        r matches Err(e) ==> listing_members(tar_listing(tar_bytes@)) == Err::<
            Seq<(Seq<char>, Seq<u8>)>,
            AssetFailure,
        >(failure_of(e)),
{
    let mut archive = open_archive(tar_bytes);
    let mut entries = match archive_entries(&mut archive) {
        Ok(entries) => entries,
        Err(e) => {
            return Err(AssetError::Entries { cause: io_error_text(&e) });
        },
    };
    let ghost all = tar_listing(tar_bytes@);
    let mut members: Vec<ArchiveMember> = Vec::new();
    assert(member_views(members@) =~= seq![]);
    assert(prepend_members(seq![], listing_members(all)) == listing_members(all)) by {
        if let Ok(r) = listing_members(all) {
            assert(seq![] + r =~= r);
        }
    }
    loop
        invariant
            all == tar_listing(tar_bytes@),
            listing_members(all) == prepend_members(
                member_views(members@),
                listing_members(entries_remaining(entries)),
            ),
        decreases entries_remaining(entries).len(),
    {
        let ghost rem = entries_remaining(entries);
        let ghost views = member_views(members@);
        match next_entry(&mut entries) {
            None => {
                assert(views + seq![] =~= views);
                return Ok(members);
            },
            Some(Err(e)) => {
                return Err(AssetError::Entry { cause: io_error_text(&e) });
            },
            Some(Ok(())) => {},
        }
        let path = entry_path_bytes(&entries);
        let name = match file_name_bytes(&path) {
            Some(n) => utf8_text(n),
            None => None,
        };
        match name {
            None => {},
            Some(name) => {
                let data = match read_entry(&mut entries) {
                    Ok(data) => data,
                    Err(e) => {
                        return Err(AssetError::ReadEntry { cause: io_error_text(&e) });
                    },
                };
                let ghost x = (name@, data@);
                members.push(ArchiveMember { name, data });
                proof {
                    assert(member_views(members@) =~= views.push(x));
                    lemma_prepend_push(views, x, listing_members(rem.drop_first()));
                }
            },
        }
    }
}

/// The outcome of unpacking the xz-compressed tar archive `compressed`, as
/// plain values: a stream that does not decompress is a `Decompress`
/// failure; a failure of the tar reader ends the listing with it; otherwise
/// the model and tokenizer are chosen among the named entries.
pub open spec fn unpacked(compressed: Seq<u8>) -> Result<(Seq<u8>, Seq<u8>), AssetFailure> {
    match xz_decoded(compressed) {
        None => Err(AssetFailure::Decompress),
        Some(t) => match listing_members(tar_listing(t)) {
            Err(f) => Err(f),
            Ok(ms) => select_view(ms),
        },
    }
}

/// Decompresses an xz-compressed tar archive and returns the data of its
/// `model.onnx` and `tokenizer.json` (the last of each name, by file name;
/// entries without a file name are passed over).
pub fn unpack_tar_xz(compressed: &[u8]) -> (r: Result<(Vec<u8>, Vec<u8>), AssetError>)
    ensures
        outcome_view(r) == unpacked(compressed@),
        r matches Err(AssetError::Decompress { .. }) <==> xz_decoded(compressed@) is None,
{
    let tar_bytes = match xz_decompress(compressed) {
        Ok(bytes) => bytes,
        Err(e) => {
            return Err(AssetError::Decompress { cause: io_error_text(&e) });
        },
    };
    let members = match read_members(tar_bytes.as_slice()) {
        Ok(members) => members,
        Err(e) => {
            proof {
                lemma_listing_failures(tar_listing(tar_bytes@));
            }
            return Err(e);
        },
    };
    select_model_assets(&members)
}

/// The model and tokenizer from the stored chunks of the asset archive:
/// the outcome of unpacking the chunks joined in order.
pub fn load_model_assets(chunks: &[&[u8]]) -> (r: Result<(Vec<u8>, Vec<u8>), AssetError>)
    ensures
        outcome_view(r) == unpacked(chunk_views(chunks@).flatten_alt()),
{
    let data = concat_chunks(chunks);
    unpack_tar_xz(data.as_slice())
}

} // verus!
