//! Real `.torrent` decoding.
//!
//! The one thing this module cannot get wrong is the info-hash, which must be
//! the SHA-1 of the *raw bytes* of the `info` dictionary as they appeared in
//! the file. A decode-then-re-encode pipeline risks reordering or dropping
//! keys the struct doesn't model, which silently produces the wrong hash.
//! Tracking the byte span of every value that is read makes "hash the original
//! bytes" the only thing the code can do.
//!
//! Non-UTF-8 path components are rejected rather than lossily converted: two
//! different byte sequences could collide once forced into `String`, and
//! `SafeRelativePath` is `String`-backed throughout.
//!
//! A v2-only torrent's `info` dict has neither `length` nor `files` (it has
//! `file tree` instead), so it comes out as a missing field: an intentional
//! rejection, not an accident of what the decoder happens to support.
//!
//! `pieces` is not kept on `TorrentMetadata`: the raw `.torrent` bytes are
//! already persisted on the repair job, so reading them again later is cheap.

use sha1::{Digest, Sha1};
use vstd::prelude::*;
use vstd::string::*;

use super::reader::{read_node, Node, Value};
use crate::text::decimal_of;
use crate::torrent::domain::{InfoHash, TorrentFile, TorrentMetadata};
use crate::torrent::path::SafeRelativePath;
use crate::torrent::ports::InspectError;

verus! {

/// A media torrent's metadata is tens of kilobytes even with a large file
/// list; 10 MiB is generous headroom while still refusing a hostile file that
/// tries to exhaust memory before a single field has been read.
pub const MAX_TORRENT_BYTES: usize = 10_485_760;

/// Larger than any real media torrent's file count; bounds the work done
/// decoding a `files` list.
pub const MAX_FILES: usize = 10_000;

/// The SHA-1 digest of some bytes: twenty bytes.
pub uninterp spec fn sha1_of(bytes: Seq<u8>) -> Seq<u8>;

/// Calls `sha1::Sha1::digest`, which hashes the whole slice at once. The
/// digest depends on the bytes alone; what it is, is not spelled out.
#[verifier::external_body]
pub(crate) fn sha1_digest(bytes: &[u8]) -> (r: [u8; 20])
    ensures
        r@ == sha1_of(bytes@),
{
    Sha1::digest(bytes).into()
}

/// Calls `String::from_utf8`, which takes exactly the valid encodings and
/// keeps the bytes as they are.
#[verifier::external_body]
pub(crate) fn utf8_text(bytes: Vec<u8>) -> (r: Option<String>)
    ensures
        match r {
            Some(text) => vstd::utf8::valid_utf8(bytes@) && text@ == vstd::utf8::decode_utf8(
                bytes@,
            ),
            None => !vstd::utf8::valid_utf8(bytes@),
        },
{
    String::from_utf8(bytes).ok()
}

/// What is wrong with a torrent.
pub enum Fault {
    /// A value of the wrong kind; what is said of it.
    Malformed(Seq<char>),
    /// A required field is absent.
    Missing(Seq<char>),
    /// These components make no safe path.
    Unsafe(Seq<Seq<char>>),
}

/// The error tells of the fault.
pub open spec fn tells(error: InspectError, fault: Fault) -> bool {
    match fault {
        Fault::Malformed(why) => error matches InspectError::Malformed(said) && said@ == why,
        Fault::Missing(field) => error matches InspectError::MissingField(name) && name@ == field,
        Fault::Unsafe(components) => error matches InspectError::UnsafePath(why)
            && crate::torrent::path::components_rejected(components, why),
    }
}

/// The value of the first entry with that key.
pub open spec fn entry(
    keys: Seq<Seq<u8>>,
    values: Seq<super::grammar::Ben>,
    key: Seq<u8>,
) -> Option<super::grammar::Ben>
    decreases keys.len(),
{
    if keys.len() == 0 {
        None
    } else if keys[0] == key {
        Some(values[0])
    } else {
        entry(keys.drop_first(), values.drop_first(), key)
    }
}

/// The value of the first entry with that key, in a dictionary.
pub open spec fn field(dict: super::grammar::Ben, key: Seq<u8>) -> Option<super::grammar::Ben> {
    entry(dict->Dict_0, dict->Dict_1, key)
}

/// The text that a byte string holds.
pub open spec fn text_of(v: super::grammar::Ben) -> Result<Seq<char>, Fault> {
    match v {
        super::grammar::Ben::Bytes(b) => if vstd::utf8::valid_utf8(b) {
            Ok(vstd::utf8::decode_utf8(b))
        } else {
            Err(Fault::Malformed("path component is not valid UTF-8"@))
        },
        _ => Err(Fault::Malformed("expected a byte string"@)),
    }
}

/// The texts that byte strings hold; the first that holds none is the fault.
pub open spec fn texts_of(items: Seq<super::grammar::Ben>) -> Result<Seq<Seq<char>>, Fault>
    decreases items.len(),
{
    if items.len() == 0 {
        Ok(Seq::empty())
    } else {
        match texts_of(items.drop_last()) {
            Err(fault) => Err(fault),
            Ok(front) => match text_of(items.last()) {
                Err(fault) => Err(fault),
                Ok(text) => Ok(front.push(text)),
            },
        }
    }
}

/// A length: an integer that is not negative.
pub open spec fn length_of(v: super::grammar::Ben) -> Result<int, Fault> {
    match v {
        super::grammar::Ben::Int(n) => if n >= 0 {
            Ok(n)
        } else {
            Err(
                Fault::Malformed(
                    "length must not be negative, got "@ + crate::text::signed_decimal(n),
                ),
            )
        },
        _ => Err(Fault::Malformed("expected an integer"@)),
    }
}

/// A required length field.
pub open spec fn length_field(
    dict: super::grammar::Ben,
    key: Seq<u8>,
    name: Seq<char>,
) -> Result<int, Fault> {
    match field(dict, key) {
        None => Err(Fault::Missing(name)),
        Some(v) => length_of(v),
    }
}

/// The path that components make.
pub open spec fn path_of(components: Seq<Seq<char>>) -> Result<Seq<char>, Fault> {
    if components.len() > 0 && crate::torrent::path::all_safe(components) {
        Ok(crate::text::joined(components, '/'))
    } else {
        Err(Fault::Unsafe(components))
    }
}

/// The path and the length that an entry of `files` declares, the path below
/// the torrent's own name.
pub open spec fn file_of(
    v: super::grammar::Ben,
    root: Seq<char>,
) -> Result<(Seq<char>, int), Fault> {
    if v !is Dict {
        Err(Fault::Malformed("expected a dictionary"@))
    } else {
        match length_field(v, vstd::utf8::encode_utf8("length"@), "info.files[].length"@) {
            Err(fault) => Err(fault),
            Ok(length) => match field(v, vstd::utf8::encode_utf8("path"@)) {
                None => Err(Fault::Missing("info.files[].path"@)),
                Some(path) => if path !is List {
                    Err(Fault::Malformed("expected a list"@))
                } else if path->List_0.len() == 0 {
                    Err(Fault::Missing("info.files[].path"@))
                } else {
                    match texts_of(path->List_0) {
                        Err(fault) => Err(fault),
                        Ok(components) => match path_of(components) {
                            Err(fault) => Err(fault),
                            Ok(below) => Ok((root + seq!['/'] + below, length)),
                        },
                    }
                },
            },
        }
    }
}

/// What the entries of `files` declare, in order; the first faulty one is the
/// fault.
pub open spec fn files_of(
    items: Seq<super::grammar::Ben>,
    root: Seq<char>,
) -> Result<Seq<(Seq<char>, int)>, Fault>
    decreases items.len(),
{
    if items.len() == 0 {
        Ok(Seq::empty())
    } else {
        match files_of(items.drop_last(), root) {
            Err(fault) => Err(fault),
            Ok(front) => match file_of(items.last(), root) {
                Err(fault) => Err(fault),
                Ok(file) => Ok(front.push(file)),
            },
        }
    }
}

/// What a torrent declares.
pub struct Declared {
    /// The `info` dictionary as it is written.
    pub info: Seq<u8>,
    pub name: Seq<char>,
    pub piece_length: int,
    pub files: Seq<(Seq<char>, int)>,
}

/// Everything an `info` dictionary declares: one file under `length`, or the
/// entries of `files`, never both.
pub open spec fn declared_by_info(info: super::grammar::Ben) -> Result<Declared, Fault> {
    if info !is Dict {
        Err(Fault::Malformed("expected a dictionary"@))
    } else {
        match field(info, vstd::utf8::encode_utf8("name"@)) {
            None => Err(Fault::Missing("info.name"@)),
            Some(name) => match text_of(name) {
                Err(fault) => Err(fault),
                Ok(text) => match path_of(seq![text]) {
                    Err(fault) => Err(fault),
                    Ok(root) => match length_field(
                        info,
                        vstd::utf8::encode_utf8("piece length"@),
                        "info.piece length"@,
                    ) {
                        Err(fault) => Err(fault),
                        Ok(piece_length) => match declared_files(info, root) {
                            Err(fault) => Err(fault),
                            Ok(files) => Ok(
                                Declared {
                                    info: super::grammar::encode(info),
                                    name: root,
                                    piece_length,
                                    files,
                                },
                            ),
                        },
                    },
                },
            },
        }
    }
}

/// What a `files` list declares. One with too many entries is refused.
pub open spec fn listed_files(
    files: super::grammar::Ben,
    root: Seq<char>,
) -> Result<Seq<(Seq<char>, int)>, Fault> {
    if files !is List {
        Err(Fault::Malformed("expected a list"@))
    } else if files->List_0.len() > MAX_FILES {
        Err(
            Fault::Malformed(
                "torrent declares "@ + crate::text::decimal(files->List_0.len())
                    + " files, limit is 10000"@,
            ),
        )
    } else {
        files_of(files->List_0, root)
    }
}

/// The files of an `info` dictionary.
pub open spec fn declared_files(
    info: super::grammar::Ben,
    root: Seq<char>,
) -> Result<Seq<(Seq<char>, int)>, Fault> {
    match (
        field(info, vstd::utf8::encode_utf8("length"@)),
        field(info, vstd::utf8::encode_utf8("files"@)),
    ) {
        (Some(length), None) => match length_of(length) {
            Err(fault) => Err(fault),
            Ok(n) => Ok(seq![(root, n)]),
        },
        (None, Some(files)) => listed_files(files, root),
        (Some(_), Some(_)) => Err(Fault::Malformed("info contains both `length` and `files`"@)),
        (None, None) => Err(Fault::Missing("info.length or info.files"@)),
    }
}

/// Everything a torrent declares.
pub open spec fn declared(v: super::grammar::Ben) -> Result<Declared, Fault> {
    if v !is Dict {
        Err(Fault::Malformed("expected a dictionary"@))
    } else {
        match field(v, vstd::utf8::encode_utf8("info"@)) {
            None => Err(Fault::Missing("info"@)),
            Some(info) => declared_by_info(info),
        }
    }
}

/// The metadata says what the torrent declares.
pub open spec fn says(metadata: TorrentMetadata, d: Declared) -> bool {
    &&& metadata.info_hash@ == sha1_of(d.info)
    &&& metadata.name@ == d.name
    &&& metadata.piece_length == d.piece_length
    &&& files_say(metadata.files@, d.files)
    &&& metadata.pieces@.len() == 0
}

/// The files have the declared paths and lengths, in order.
pub open spec fn files_say(files: Seq<TorrentFile>, d: Seq<(Seq<char>, int)>) -> bool {
    &&& files.len() == d.len()
    &&& forall|i: int|
        0 <= i < files.len() ==> (#[trigger] files[i]).path@ == d[i].0 && files[i].length == d[i].1
}

/// Whether two byte strings are the same.
fn same_bytes(a: &[u8], b: &[u8]) -> (r: bool)
    ensures
        r == (a@ == b@),
{
    if a.len() != b.len() {
        return false;
    }
    let mut i: usize = 0;
    while i < a.len()
        invariant
            i <= a@.len() == b@.len(),
            forall|k: int| 0 <= k < i ==> a@[k] == b@[k],
        decreases a@.len() - i,
    {
        if a[i] != b[i] {
            return false;
        }
        i += 1;
    }
    assert(a@ =~= b@);
    true
}

/// The first entry of a dictionary with that key.
fn find<'a>(keys: &'a Vec<Vec<u8>>, values: &'a Vec<Node>, name: &str) -> (r: Option<&'a Node>)
    requires
        keys@.len() == values@.len(),
    ensures
        match r {
            Some(node) => {
                &&& entry(
                    super::reader::byte_strings(keys@),
                    super::reader::models(values@),
                    vstd::utf8::encode_utf8(name@),
                ) == Some(node.model())
                &&& exists|i: int| 0 <= i < values@.len() && #[trigger] values@[i] == *node
            },
            None => entry(
                super::reader::byte_strings(keys@),
                super::reader::models(values@),
                vstd::utf8::encode_utf8(name@),
            ) is None,
        },
{
    let ghost all_keys = super::reader::byte_strings(keys@);
    let ghost all = super::reader::models(values@);
    let ghost key = vstd::utf8::encode_utf8(name@);
    let mut i: usize = 0;
    assert(all_keys.skip(0) =~= all_keys);
    assert(all.skip(0) =~= all);
    while i < keys.len()
        invariant
            i <= keys@.len() == values@.len(),
            all_keys == super::reader::byte_strings(keys@),
            all == super::reader::models(values@),
            key == vstd::utf8::encode_utf8(name@),
            entry(all_keys, all, key) == entry(all_keys.skip(i as int), all.skip(i as int), key),
        decreases keys@.len() - i,
    {
        proof {
            assert(all_keys.skip(i as int)[0] == keys@[i as int]@);
            assert(all.skip(i as int)[0] == values@[i as int].model());
            assert(all_keys.skip(i as int).drop_first() =~= all_keys.skip(i + 1));
            assert(all.skip(i as int).drop_first() =~= all.skip(i + 1));
        }
        if same_bytes(keys[i].as_slice(), name.as_bytes()) {
            assert(values@[i as int] == values@[i as int]);
            return Some(&values[i]);
        }
        i += 1;
    }
    None
}

fn malformed(why: &str) -> (r: InspectError)
    ensures
        r is Malformed,
        r->Malformed_0@ == why@,
{
    InspectError::Malformed(why.to_owned())
}

/// The text of a byte string.
fn decode_path_component(node: &Node) -> (r: Result<String, InspectError>)
    ensures
        match (r, text_of(node.model())) {
            (Ok(text), Ok(expected)) => text@ == expected,
            (Err(error), Err(fault)) => tells(error, fault),
            _ => false,
        },
{
    match &node.value {
        Value::Bytes(bytes) => match utf8_text(vstd::slice::slice_to_vec(bytes.as_slice())) {
            Some(text) => Ok(text),
            None => Err(malformed("path component is not valid UTF-8")),
        },
        _ => Err(malformed("expected a byte string")),
    }
}

/// A length.
fn as_length(node: &Node) -> (r: Result<u64, InspectError>)
    ensures
        match (r, length_of(node.model())) {
            (Ok(n), Ok(expected)) => n == expected,
            (Err(error), Err(fault)) => tells(error, fault),
            _ => false,
        },
{
    match &node.value {
        Value::Int(n) => if *n >= 0 {
            Ok(*n as u64)
        } else {
            let mut why = "length must not be negative, got ".to_owned();
            why.append(crate::text::signed_decimal_of(*n).as_str());
            Err(InspectError::Malformed(why))
        },
        _ => Err(malformed("expected an integer")),
    }
}

/// The texts of byte strings.
fn decode_components(nodes: &Vec<Node>) -> (r: Result<Vec<String>, InspectError>)
    ensures
        match (r, texts_of(super::reader::models(nodes@))) {
            (Ok(texts), Ok(expected)) => crate::text::texts(texts@) == expected,
            (Err(error), Err(fault)) => tells(error, fault),
            _ => false,
        },
{
    let ghost all = super::reader::models(nodes@);
    let mut out: Vec<String> = Vec::new();
    let mut i: usize = 0;
    assert(crate::text::texts(out@) =~= Seq::<Seq<char>>::empty());
    while i < nodes.len()
        invariant
            i <= nodes@.len(),
            all == super::reader::models(nodes@),
            texts_of(all.take(i as int)) == Ok::<Seq<Seq<char>>, Fault>(crate::text::texts(out@)),
        decreases nodes@.len() - i,
    {
        proof {
            assert(all.take(i + 1).drop_last() =~= all.take(i as int));
            assert(all.take(i + 1).last() == nodes@[i as int].model());
        }
        match decode_path_component(&nodes[i]) {
            Ok(text) => {
                let ghost before = crate::text::texts(out@);
                let ghost added = text@;
                out.push(text);
                assert(crate::text::texts(out@) =~= before.push(added));
            },
            Err(error) => {
                proof {
                    texts_fault_stays(all, i + 1);
                }
                return Err(error);
            },
        }
        i += 1;
    }
    assert(all.take(i as int) =~= all);
    Ok(out)
}

/// A fault among the first items is the fault of all of them.
proof fn texts_fault_stays(items: Seq<super::grammar::Ben>, n: int)
    requires
        0 <= n <= items.len(),
        texts_of(items.take(n)) is Err,
    ensures
        texts_of(items) == texts_of(items.take(n)),
    decreases items.len(),
{
    if n < items.len() {
        assert(items.drop_last().take(n) =~= items.take(n));
        texts_fault_stays(items.drop_last(), n);
    } else {
        assert(items.take(n) =~= items);
    }
}

proof fn files_fault_stays(items: Seq<super::grammar::Ben>, root: Seq<char>, n: int)
    requires
        0 <= n <= items.len(),
        files_of(items.take(n), root) is Err,
    ensures
        files_of(items, root) == files_of(items.take(n), root),
    decreases items.len(),
{
    if n < items.len() {
        assert(items.drop_last().take(n) =~= items.take(n));
        files_fault_stays(items.drop_last(), root, n);
    } else {
        assert(items.take(n) =~= items);
    }
}

/// The path of components, or why they make none.
fn safe_path_of(components: &Vec<String>) -> (r: Result<SafeRelativePath, InspectError>)
    ensures
        match (r, path_of(crate::text::texts(components@))) {
            (Ok(path), Ok(expected)) => path@ == expected,
            (Err(error), Err(fault)) => tells(error, fault),
            _ => false,
        },
{
    match SafeRelativePath::from_components(components.as_slice()) {
        Ok(path) => Ok(path),
        Err(why) => {
            proof {
                crate::torrent::path::rejected_is_not_safe(crate::text::texts(components@), why);
            }
            Err(InspectError::UnsafePath(why))
        },
    }
}

proof fn dict_model(node: Node)
    requires
        node.value is Dict,
    ensures
        node.model() == super::grammar::Ben::Dict(
            super::reader::byte_strings(node.value->Dict_0@),
            super::reader::models(node.value->Dict_1@),
        ),
{
    assert(node.model()->Dict_1 =~= super::reader::models(node.value->Dict_1@));
}

proof fn list_model(node: Node)
    requires
        node.value is List,
    ensures
        node.model() == super::grammar::Ben::List(super::reader::models(node.value->List_0@)),
{
    assert(node.model()->List_0 =~= super::reader::models(node.value->List_0@));
}

/// One entry of `files`.
fn decode_file(node: &Node, root: &SafeRelativePath, bytes: &[u8]) -> (r: Result<
    TorrentFile,
    InspectError,
>)
    requires
        node.stands_in(bytes@),
    ensures
        match (r, file_of(node.model(), root@)) {
            (Ok(file), Ok((path, length))) => file.path@ == path && file.length == length,
            (Err(error), Err(fault)) => tells(error, fault),
            _ => false,
        },
{
    let (keys, values) = match &node.value {
        Value::Dict(keys, values) => (keys, values),
        _ => return Err(malformed("expected a dictionary")),
    };
    proof {
        dict_model(*node);
    }
    let length: u64 = match find(keys, values, "length") {
        None => return Err(InspectError::MissingField("info.files[].length")),
        Some(found) => match as_length(found) {
            Ok(n) => n,
            Err(error) => return Err(error),
        },
    };
    let path_node = match find(keys, values, "path") {
        None => return Err(InspectError::MissingField("info.files[].path")),
        Some(found) => found,
    };
    let parts = match &path_node.value {
        Value::List(parts) => parts,
        _ => return Err(malformed("expected a list")),
    };
    proof {
        list_model(*path_node);
    }
    if parts.len() == 0 {
        return Err(InspectError::MissingField("info.files[].path"));
    }
    let components = match decode_components(parts) {
        Ok(components) => components,
        Err(error) => return Err(error),
    };
    match safe_path_of(&components) {
        Ok(path) => Ok(TorrentFile { path: path.under(root), length }),
        Err(error) => Err(error),
    }
}

/// The entries of `files`.
fn decode_files(node: &Node, root: &SafeRelativePath, bytes: &[u8]) -> (r: Result<
    Vec<TorrentFile>,
    InspectError,
>)
    requires
        node.stands_in(bytes@),
    ensures
        match (r, listed_files(node.model(), root@)) {
            (Ok(files), Ok(d)) => files_say(files@, d),
            (Err(error), Err(fault)) => tells(error, fault),
            _ => false,
        },
{
    let items = match &node.value {
        Value::List(items) => items,
        _ => return Err(malformed("expected a list")),
    };
    proof {
        list_model(*node);
    }
    if items.len() > MAX_FILES {
        let mut why = "torrent declares ".to_owned();
        why.append(decimal_of(items.len() as u128).as_str());
        why.append(" files, limit is 10000");
        return Err(InspectError::Malformed(why));
    }
    let ghost all = super::reader::models(items@);
    let mut out: Vec<TorrentFile> = Vec::new();
    let mut i: usize = 0;
    while i < items.len()
        invariant
            i <= items@.len() <= MAX_FILES,
            all == super::reader::models(items@),
            node.model() == super::grammar::Ben::List(all),
            forall|k: int| 0 <= k < items@.len() ==> (#[trigger] items@[k]).stands_in(bytes@),
            files_of(all.take(i as int), root@) is Ok,
            files_say(out@, files_of(all.take(i as int), root@)->Ok_0),
        decreases items@.len() - i,
    {
        proof {
            assert(all.take(i + 1).drop_last() =~= all.take(i as int));
            assert(all.take(i + 1).last() == items@[i as int].model());
        }
        match decode_file(&items[i], root, bytes) {
            Ok(file) => out.push(file),
            Err(error) => {
                proof {
                    files_fault_stays(all, root@, i + 1);
                }
                return Err(error);
            },
        }
        i += 1;
    }
    assert(all.take(i as int) =~= all);
    Ok(out)
}

/// What `.torrent` bytes come to: too many are refused, so is what begins with
/// no value, and a value says what it declares or what is wrong with it.
pub open spec fn inspected_as(
    bytes: Seq<u8>,
    r: Result<TorrentMetadata, InspectError>,
) -> bool {
    &&& bytes.len() > MAX_TORRENT_BYTES ==> (r matches Err(InspectError::Malformed(why)) && why@
        == "torrent is "@ + crate::text::decimal(bytes.len()) + " bytes, limit is 10485760"@)
    &&& bytes.len() <= MAX_TORRENT_BYTES && super::reader::nothing_at(bytes, 0, 0) ==> (
    r matches Err(InspectError::Malformed(why)) && super::reader::fault(bytes, 0, 0, why@))
    &&& forall|v: super::grammar::Ben|
        bytes.len() <= MAX_TORRENT_BYTES && super::grammar::readable(v, 0)
            && #[trigger] super::grammar::starts(bytes, super::grammar::encode(v)) ==> match (
            r,
            declared(v),
        ) {
            (Ok(metadata), Ok(d)) => says(metadata, d),
            (Err(error), Err(fault)) => tells(error, fault),
            _ => false,
        }
}

#[derive(Clone, Copy, Debug, Default)]
pub struct BencodeInspector;

impl BencodeInspector {
    /// Read the metadata out of `.torrent` bytes.
    ///
    /// What follows the first value is not looked at.
    pub fn inspect(&self, bytes: &[u8]) -> (r: Result<TorrentMetadata, InspectError>)
        ensures
            inspected_as(bytes@, r),
    {
        if bytes.len() > MAX_TORRENT_BYTES {
            let mut why = "torrent is ".to_owned();
            why.append(decimal_of(bytes.len() as u128).as_str());
            why.append(" bytes, limit is 10485760");
            return Err(InspectError::Malformed(why));
        }
        assert(bytes@.skip(0) =~= bytes@);
        let root = match read_node(bytes, 0, 0) {
            Ok(root) => root,
            Err(why) => return Err(InspectError::Malformed(why)),
        };
        let r = inspect_root(&root, bytes);
        proof {
            let it = root.model();
            assert(super::grammar::starts(bytes@.skip(0), super::grammar::encode(it)));
            assert forall|v: super::grammar::Ben|
                super::grammar::readable(v, 0) && #[trigger] super::grammar::starts(
                    bytes@,
                    super::grammar::encode(v),
                ) implies v == it by {
                super::grammar::encode_unique(bytes@, v, it, 0);
            }
        }
        r
    }
}

/// Read the metadata out of the value that a torrent holds.
fn inspect_root(root: &Node, bytes: &[u8]) -> (r: Result<TorrentMetadata, InspectError>)
    requires
        root.stands_in(bytes@),
    ensures
        match (r, declared(root.model())) {
            (Ok(metadata), Ok(d)) => says(metadata, d),
            (Err(error), Err(fault)) => tells(error, fault),
            _ => false,
        },
{
    let (keys, values) = match &root.value {
        Value::Dict(keys, values) => (keys, values),
        _ => return Err(malformed("expected a dictionary")),
    };
    proof {
        dict_model(*root);
    }
    let info = match find(keys, values, "info") {
        None => return Err(InspectError::MissingField("info")),
        Some(info) => info,
    };
    inspect_info(info, bytes)
}

/// Read the metadata out of the `info` dictionary.
fn inspect_info(info: &Node, bytes: &[u8]) -> (r: Result<TorrentMetadata, InspectError>)
    requires
        info.stands_in(bytes@),
    ensures
        match (r, declared_by_info(info.model())) {
            (Ok(metadata), Ok(d)) => says(metadata, d),
            (Err(error), Err(fault)) => tells(error, fault),
            _ => false,
        },
{
    let (keys, values) = match &info.value {
        Value::Dict(keys, values) => (keys, values),
        _ => return Err(malformed("expected a dictionary")),
    };
    proof {
        dict_model(*info);
    }
    let raw = &bytes[info.start..info.end];
    proof {
        assert(raw@ =~= bytes@.skip(info.start as int).take(
            super::grammar::encode(info.model()).len() as int,
        ));
    }
    let info_hash = InfoHash::from_bytes(sha1_digest(raw));

    let name_text = match find(keys, values, "name") {
        None => return Err(InspectError::MissingField("info.name")),
        Some(found) => match decode_path_component(found) {
            Ok(text) => text,
            Err(error) => return Err(error),
        },
    };
    let mut parts: Vec<String> = Vec::new();
    let ghost text = name_text@;
    parts.push(name_text);
    assert(crate::text::texts(parts@) =~= seq![text]);
    let name = match safe_path_of(&parts) {
        Ok(name) => name,
        Err(error) => return Err(error),
    };

    let piece_length: u64 = match find(keys, values, "piece length") {
        None => return Err(InspectError::MissingField("info.piece length")),
        Some(found) => match as_length(found) {
            Ok(n) => n,
            Err(error) => return Err(error),
        },
    };

    let files = match (find(keys, values, "length"), find(keys, values, "files")) {
        (Some(length), None) => match as_length(length) {
            Ok(n) => {
                let mut files: Vec<TorrentFile> = Vec::new();
                files.push(TorrentFile { path: name.clone(), length: n });
                files
            },
            Err(error) => return Err(error),
        },
        (None, Some(list)) => match decode_files(list, &name, bytes) {
            Ok(files) => files,
            Err(error) => return Err(error),
        },
        (Some(_), Some(_)) => return Err(malformed("info contains both `length` and `files`")),
        (None, None) => return Err(InspectError::MissingField("info.length or info.files")),
    };

    Ok(TorrentMetadata { info_hash, name, piece_length, files, pieces: Vec::new() })
}

/// The dictionary has that name at that place, and at none before it.
pub open spec fn first_at(dict: super::grammar::Ben, name: Seq<char>, i: int) -> bool {
    &&& dict is Dict
    &&& dict->Dict_0.len() == dict->Dict_1.len()
    &&& 0 <= i < dict->Dict_0.len()
    &&& dict->Dict_0[i] == vstd::utf8::encode_utf8(name)
    &&& forall|j: int|
        0 <= j < i ==> #[trigger] dict->Dict_0[j] != vstd::utf8::encode_utf8(name)
}

/// The dictionary has that name nowhere.
pub open spec fn lacks(dict: super::grammar::Ben, name: Seq<char>) -> bool {
    &&& dict is Dict
    &&& forall|j: int|
        0 <= j < dict->Dict_0.len() ==> #[trigger] dict->Dict_0[j] != vstd::utf8::encode_utf8(name)
}

/// Under a name stands the value of the first entry with it, and nothing where
/// no entry has it.
pub proof fn a_field_is_the_first_of_its_name(
    keys: Seq<Seq<u8>>,
    values: Seq<super::grammar::Ben>,
    key: Seq<u8>,
)
    requires
        keys.len() == values.len(),
    ensures
        forall|i: int|
            #![trigger keys[i]]
            0 <= i < keys.len() && keys[i] == key && (forall|j: int|
                0 <= j < i ==> #[trigger] keys[j] != key) ==> entry(keys, values, key) == Some(
                values[i],
            ),
        entry(keys, values, key) is None <==> (forall|j: int|
            0 <= j < keys.len() ==> #[trigger] keys[j] != key),
    decreases keys.len(),
{
    if keys.len() > 0 {
        let (rest, more) = (keys.drop_first(), values.drop_first());
        a_field_is_the_first_of_its_name(rest, more, key);
        assert forall|j: int| 0 <= j < rest.len() implies #[trigger] rest[j] == keys[j + 1] by {}
        assert forall|i: int|
            #![trigger keys[i]]
            0 <= i < keys.len() && keys[i] == key && (forall|j: int|
                0 <= j < i ==> #[trigger] keys[j] != key) implies entry(keys, values, key) == Some(
            values[i],
        ) by {
            if i > 0 {
                assert(keys[0] != key);
                assert(rest[i - 1] == key);
                assert forall|j: int| 0 <= j < i - 1 implies #[trigger] rest[j] != key by {
                    assert(keys[j + 1] != key);
                }
            }
        }
        if entry(keys, values, key) is None {
            assert forall|j: int| 0 <= j < keys.len() implies #[trigger] keys[j] != key by {
                if j > 0 {
                    assert(rest[j - 1] != key);
                }
            }
        }
        if forall|j: int| 0 <= j < keys.len() ==> #[trigger] keys[j] != key {
            assert forall|j: int| 0 <= j < rest.len() implies #[trigger] rest[j] != key by {
                assert(keys[j + 1] != key);
            }
            assert(keys[0] != key);
        }
    }
}

/// A byte string is read as a text exactly when it is one written in UTF-8, and
/// then as that text, whatever its letters are.
pub proof fn every_utf8_text_is_read_as_itself(t: Seq<char>, b: Seq<u8>)
    ensures
        text_of(super::grammar::Ben::Bytes(vstd::utf8::encode_utf8(t))) == Ok::<Seq<char>, Fault>(t),
        text_of(super::grammar::Ben::Bytes(b)) matches Ok(read) ==> vstd::utf8::encode_utf8(read)
            == b,
        text_of(super::grammar::Ben::Bytes(b)) is Err <==> (forall|read: Seq<char>| #[trigger]
            vstd::utf8::encode_utf8(read) != b),
{
    vstd::utf8::encode_utf8_valid_utf8(t);
    vstd::utf8::encode_utf8_decode_utf8(t);
    if vstd::utf8::valid_utf8(b) {
        vstd::utf8::decode_utf8_encode_utf8(b);
    }
    assert forall|read: Seq<char>| #[trigger] vstd::utf8::encode_utf8(read) == b implies text_of(
        super::grammar::Ben::Bytes(b),
    ) is Ok by {
        vstd::utf8::encode_utf8_valid_utf8(read);
    }
}

/// Names written in UTF-8 are all read, in their order.
proof fn every_name_is_read(names: Seq<Seq<char>>)
    ensures
        texts_of(
            names.map_values(
                |t: Seq<char>| super::grammar::Ben::Bytes(vstd::utf8::encode_utf8(t)),
            ),
        ) == Ok::<Seq<Seq<char>>, Fault>(names),
    decreases names.len(),
{
    let written = names.map_values(
        |t: Seq<char>| super::grammar::Ben::Bytes(vstd::utf8::encode_utf8(t)),
    );
    if names.len() > 0 {
        assert(written.drop_last() =~= names.drop_last().map_values(
            |t: Seq<char>| super::grammar::Ben::Bytes(vstd::utf8::encode_utf8(t)),
        ));
        every_name_is_read(names.drop_last());
        every_utf8_text_is_read_as_itself(names.last(), Seq::empty());
        assert(names.drop_last().push(names.last()) =~= names);
    } else {
        assert(names =~= Seq::<Seq<char>>::empty());
    }
}

/// The value is how a torrent of that name and piece length begins: a dictionary
/// with an `info` dictionary that holds both.
pub open spec fn names_a_torrent(
    torrent: super::grammar::Ben,
    info: super::grammar::Ben,
    name: Seq<char>,
    piece_length: int,
) -> bool {
    exists|i: int, n: int, p: int|
        {
            &&& #[trigger] first_at(torrent, "info"@, i)
            &&& torrent->Dict_1[i] == info
            &&& #[trigger] first_at(info, "name"@, n)
            &&& info->Dict_1[n] == super::grammar::Ben::Bytes(vstd::utf8::encode_utf8(name))
            &&& #[trigger] first_at(info, "piece length"@, p)
            &&& info->Dict_1[p] == super::grammar::Ben::Int(piece_length)
        }
}

/// What such a value declares is settled by its files.
proof fn a_named_torrent_is_settled_by_its_files(
    torrent: super::grammar::Ben,
    info: super::grammar::Ben,
    name: Seq<char>,
    piece_length: int,
)
    requires
        names_a_torrent(torrent, info, name, piece_length),
        crate::torrent::path::safe_component(name),
        piece_length >= 0,
    ensures
        declared(torrent) == match declared_files(info, name) {
            Err(fault) => Err(fault),
            Ok(files) => Ok(
                Declared { info: super::grammar::encode(info), name, piece_length, files },
            ),
        },
{
    let (i, n, p) = choose|i: int, n: int, p: int|
        {
            &&& #[trigger] first_at(torrent, "info"@, i)
            &&& torrent->Dict_1[i] == info
            &&& #[trigger] first_at(info, "name"@, n)
            &&& info->Dict_1[n] == super::grammar::Ben::Bytes(vstd::utf8::encode_utf8(name))
            &&& #[trigger] first_at(info, "piece length"@, p)
            &&& info->Dict_1[p] == super::grammar::Ben::Int(piece_length)
        };
    a_field_is_the_first_of_its_name(
        torrent->Dict_0,
        torrent->Dict_1,
        vstd::utf8::encode_utf8("info"@),
    );
    a_field_is_the_first_of_its_name(
        info->Dict_0,
        info->Dict_1,
        vstd::utf8::encode_utf8("name"@),
    );
    a_field_is_the_first_of_its_name(
        info->Dict_0,
        info->Dict_1,
        vstd::utf8::encode_utf8("piece length"@),
    );
    assert(torrent->Dict_0[i] == vstd::utf8::encode_utf8("info"@));
    assert(info->Dict_0[n] == vstd::utf8::encode_utf8("name"@));
    assert(info->Dict_0[p] == vstd::utf8::encode_utf8("piece length"@));
    every_utf8_text_is_read_as_itself(name, Seq::empty());
    assert(crate::torrent::path::all_safe(seq![name]));
    assert(crate::text::joined(seq![name], '/') == name);
}

/// A torrent of one file is read with the name it is given, in any script, as
/// long as it is a safe one: one file of that name and of the declared length,
/// with the SHA-1 digest of its `info` dictionary as it stands in the bytes.
pub proof fn a_torrent_of_one_file_is_read(
    bytes: Seq<u8>,
    r: Result<TorrentMetadata, InspectError>,
    torrent: super::grammar::Ben,
    info: super::grammar::Ben,
    name: Seq<char>,
    piece_length: int,
    l: int,
    length: int,
)
    requires
        inspected_as(bytes, r),
        bytes.len() <= 10_485_760,
        super::grammar::readable(torrent, 0),
        super::grammar::starts(bytes, super::grammar::encode(torrent)),
        names_a_torrent(torrent, info, name, piece_length),
        crate::torrent::path::safe_component(name),
        piece_length >= 0,
        first_at(info, "length"@, l),
        info->Dict_1[l] == super::grammar::Ben::Int(length),
        length >= 0,
        lacks(info, "files"@),
    ensures
        r matches Ok(metadata) && {
            &&& metadata.name@ == name
            &&& metadata.piece_length == piece_length
            &&& metadata.files@.len() == 1
            &&& metadata.files@[0].path@ == name
            &&& metadata.files@[0].length == length
            &&& metadata.info_hash@ == sha1_of(super::grammar::encode(info))
        },
{
    a_named_torrent_is_settled_by_its_files(torrent, info, name, piece_length);
    a_field_is_the_first_of_its_name(
        info->Dict_0,
        info->Dict_1,
        vstd::utf8::encode_utf8("length"@),
    );
    a_field_is_the_first_of_its_name(
        info->Dict_0,
        info->Dict_1,
        vstd::utf8::encode_utf8("files"@),
    );
    assert(info->Dict_0[l] == vstd::utf8::encode_utf8("length"@));
    let metadata = r->Ok_0;
    assert(metadata.files@[0].path@ == name);
}

/// The value is an entry of `files`: a dictionary with that length and that path.
pub open spec fn is_file_entry(
    v: super::grammar::Ben,
    names: Seq<Seq<char>>,
    length: int,
) -> bool {
    exists|l: int, p: int|
        {
            &&& #[trigger] first_at(v, "length"@, l)
            &&& v->Dict_1[l] == super::grammar::Ben::Int(length)
            &&& #[trigger] first_at(v, "path"@, p)
            &&& v->Dict_1[p] == super::grammar::Ben::List(
                names.map_values(
                    |t: Seq<char>| super::grammar::Ben::Bytes(vstd::utf8::encode_utf8(t)),
                ),
            )
        }
}

/// What such an entry declares.
proof fn a_file_entry_is_read(
    v: super::grammar::Ben,
    names: Seq<Seq<char>>,
    length: int,
    root: Seq<char>,
)
    requires
        is_file_entry(v, names, length),
        names.len() > 0,
        crate::torrent::path::all_safe(names),
        length >= 0,
    ensures
        file_of(v, root) == Ok::<(Seq<char>, int), Fault>(
            (root + seq!['/'] + crate::text::joined(names, '/'), length),
        ),
{
    let (l, p) = choose|l: int, p: int|
        {
            &&& #[trigger] first_at(v, "length"@, l)
            &&& v->Dict_1[l] == super::grammar::Ben::Int(length)
            &&& #[trigger] first_at(v, "path"@, p)
            &&& v->Dict_1[p] == super::grammar::Ben::List(
                names.map_values(
                    |t: Seq<char>| super::grammar::Ben::Bytes(vstd::utf8::encode_utf8(t)),
                ),
            )
        };
    a_field_is_the_first_of_its_name(v->Dict_0, v->Dict_1, vstd::utf8::encode_utf8("length"@));
    a_field_is_the_first_of_its_name(v->Dict_0, v->Dict_1, vstd::utf8::encode_utf8("path"@));
    assert(v->Dict_0[l] == vstd::utf8::encode_utf8("length"@));
    assert(v->Dict_0[p] == vstd::utf8::encode_utf8("path"@));
    every_name_is_read(names);
}

proof fn file_entries_are_read(
    items: Seq<super::grammar::Ben>,
    names: Seq<Seq<Seq<char>>>,
    lengths: Seq<int>,
    root: Seq<char>,
)
    requires
        items.len() == names.len() == lengths.len(),
        forall|i: int|
            0 <= i < items.len() ==> {
                &&& is_file_entry(#[trigger] items[i], names[i], lengths[i])
                &&& names[i].len() > 0
                &&& crate::torrent::path::all_safe(names[i])
                &&& lengths[i] >= 0
            },
    ensures
        files_of(items, root) matches Ok(files) && files.len() == items.len() && forall|i: int|
            0 <= i < files.len() ==> #[trigger] files[i] == (
                root + seq!['/'] + crate::text::joined(names[i], '/'),
                lengths[i],
            ),
    decreases items.len(),
{
    if items.len() > 0 {
        let n = items.len() - 1;
        assert forall|i: int| 0 <= i < n implies {
            &&& is_file_entry(
                #[trigger] items.drop_last()[i],
                names.drop_last()[i],
                lengths.drop_last()[i],
            )
            &&& names.drop_last()[i].len() > 0
            &&& crate::torrent::path::all_safe(names.drop_last()[i])
            &&& lengths.drop_last()[i] >= 0
        } by {
            assert(is_file_entry(items[i], names[i], lengths[i]));
        }
        file_entries_are_read(items.drop_last(), names.drop_last(), lengths.drop_last(), root);
        assert(is_file_entry(items[n], names[n], lengths[n]));
        a_file_entry_is_read(items[n], names[n], lengths[n], root);
    }
}

/// A torrent of several files is read with every one of them, in order: each at
/// its own path below the torrent's name, with its own length.
pub proof fn a_torrent_of_several_files_is_read(
    bytes: Seq<u8>,
    r: Result<TorrentMetadata, InspectError>,
    torrent: super::grammar::Ben,
    info: super::grammar::Ben,
    name: Seq<char>,
    piece_length: int,
    f: int,
    items: Seq<super::grammar::Ben>,
    names: Seq<Seq<Seq<char>>>,
    lengths: Seq<int>,
)
    requires
        inspected_as(bytes, r),
        bytes.len() <= 10_485_760,
        super::grammar::readable(torrent, 0),
        super::grammar::starts(bytes, super::grammar::encode(torrent)),
        names_a_torrent(torrent, info, name, piece_length),
        crate::torrent::path::safe_component(name),
        piece_length >= 0,
        first_at(info, "files"@, f),
        info->Dict_1[f] == super::grammar::Ben::List(items),
        lacks(info, "length"@),
        items.len() <= 10_000,
        items.len() == names.len() == lengths.len(),
        forall|i: int|
            0 <= i < items.len() ==> {
                &&& is_file_entry(#[trigger] items[i], names[i], lengths[i])
                &&& names[i].len() > 0
                &&& crate::torrent::path::all_safe(names[i])
                &&& lengths[i] >= 0
            },
    ensures
        r matches Ok(metadata) && {
            &&& metadata.name@ == name
            &&& metadata.piece_length == piece_length
            &&& metadata.info_hash@ == sha1_of(super::grammar::encode(info))
            &&& metadata.files@.len() == items.len()
            &&& forall|i: int|
                0 <= i < items.len() ==> (#[trigger] metadata.files@[i]).path@ == name + seq!['/']
                    + crate::text::joined(names[i], '/') && metadata.files@[i].length == lengths[i]
        },
{
    a_named_torrent_is_settled_by_its_files(torrent, info, name, piece_length);
    a_field_is_the_first_of_its_name(
        info->Dict_0,
        info->Dict_1,
        vstd::utf8::encode_utf8("length"@),
    );
    a_field_is_the_first_of_its_name(
        info->Dict_0,
        info->Dict_1,
        vstd::utf8::encode_utf8("files"@),
    );
    assert(info->Dict_0[f] == vstd::utf8::encode_utf8("files"@));
    file_entries_are_read(items, names, lengths, name);
}

/// A torrent larger than ten mebibytes is refused; so is one with both a length
/// and a list of files, or with neither; and so is one without a name or a piece
/// length, or whose name is not a safe one in UTF-8.
pub proof fn what_is_never_read(
    bytes: Seq<u8>,
    r: Result<TorrentMetadata, InspectError>,
    torrent: super::grammar::Ben,
    info: super::grammar::Ben,
    i: int,
)
    requires
        inspected_as(bytes, r),
        super::grammar::readable(torrent, 0),
        super::grammar::starts(bytes, super::grammar::encode(torrent)),
        first_at(torrent, "info"@, i),
        torrent->Dict_1[i] == info,
        info is Dict,
        info->Dict_0.len() == info->Dict_1.len(),
    ensures
        bytes.len() > 10_485_760 ==> r is Err,
        lacks(info, "name"@) ==> r is Err,
        lacks(info, "piece length"@) ==> r is Err,
        lacks(info, "length"@) && lacks(info, "files"@) ==> r is Err,
        !lacks(info, "length"@) && !lacks(info, "files"@) ==> r is Err,
        forall|n: int| #[trigger]
            first_at(info, "name"@, n) && (forall|t: Seq<char>|
                crate::torrent::path::safe_component(t) ==> info->Dict_1[n]
                    != super::grammar::Ben::Bytes(#[trigger] vstd::utf8::encode_utf8(t)))
                ==> r is Err,
{
    a_field_is_the_first_of_its_name(
        torrent->Dict_0,
        torrent->Dict_1,
        vstd::utf8::encode_utf8("info"@),
    );
    assert(torrent->Dict_0[i] == vstd::utf8::encode_utf8("info"@));
    a_field_is_the_first_of_its_name(info->Dict_0, info->Dict_1, vstd::utf8::encode_utf8("name"@));
    a_field_is_the_first_of_its_name(
        info->Dict_0,
        info->Dict_1,
        vstd::utf8::encode_utf8("piece length"@),
    );
    a_field_is_the_first_of_its_name(
        info->Dict_0,
        info->Dict_1,
        vstd::utf8::encode_utf8("length"@),
    );
    a_field_is_the_first_of_its_name(
        info->Dict_0,
        info->Dict_1,
        vstd::utf8::encode_utf8("files"@),
    );
    assert(field(torrent, vstd::utf8::encode_utf8("info"@)) == Some(info));
    assert forall|n: int| #[trigger]
        first_at(info, "name"@, n) && (forall|t: Seq<char>|
            crate::torrent::path::safe_component(t) ==> info->Dict_1[n]
                != super::grammar::Ben::Bytes(
                #[trigger] vstd::utf8::encode_utf8(t),
            )) implies r is Err by {
        assert(info->Dict_0[n] == vstd::utf8::encode_utf8("name"@));
        let b = info->Dict_1[n]->Bytes_0;
        every_utf8_text_is_read_as_itself(Seq::empty(), b);
        if text_of(info->Dict_1[n]) is Ok {
            let t = text_of(info->Dict_1[n])->Ok_0;
            assert(vstd::utf8::encode_utf8(t) == b);
            assert(!crate::torrent::path::safe_component(seq![t][0]));
        }
    }
}

/// A length that is read is an integer that is not negative.
pub proof fn a_length_is_a_natural_number(v: super::grammar::Ben)
    ensures
        length_of(v) matches Ok(n) ==> v == super::grammar::Ben::Int(n) && n >= 0,
        forall|n: int| n >= 0 ==> #[trigger] length_of(super::grammar::Ben::Int(n)) == Ok::<
            int,
            Fault,
        >(n),
        forall|n: int| n < 0 ==> (#[trigger] length_of(super::grammar::Ben::Int(n))) is Err,
{
}

} // verus!
