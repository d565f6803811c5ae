//! The boundary to the storage crates: the outside types that the registry
//! handles, what the store holds under a namespace, and one small function
//! for each outside call. The contracts of those functions are not proved:
//! each is taken from the source of the function it calls.

use cosmwasm_std::Addr;
use cosmwasm_std::MemoryStorage;
use cosmwasm_std::Order;
use cosmwasm_std::StdError;
use cw_storage_plus::Index;
use cw_storage_plus::MultiIndex;
use vstd::prelude::*;
use vstd::utf8::encode_utf8;

verus! {

/// `cosmwasm_std::Addr`, an account identifier. Opaque here.
#[verifier::external_type_specification]
#[verifier::external_body]
pub struct ExAddr(Addr);

/// `cosmwasm_std::StdError`, the error of a storage call. Opaque here.
#[verifier::external_type_specification]
#[verifier::external_body]
pub struct ExStdError(StdError);

/// `cosmwasm_std::MemoryStorage`, an in-memory key-value store. Opaque here.
#[verifier::external_type_specification]
#[verifier::external_body]
pub struct ExMemoryStorage(MemoryStorage);

/// The text of an address: what `Addr::as_str` returns.
pub uninterp spec fn addr_text(addr: Addr) -> Seq<char>;

/// What a `cw_storage_plus::Map<&str, Addr>` with this namespace finds in
/// the store: an entry for each key under which something is stored, holding
/// the text of the stored address, or `None` where the stored bytes do not
/// parse as one.
pub uninterp spec fn stored_grants(store: MemoryStorage, namespace: Seq<char>) -> Map<
    Seq<char>,
    Option<Seq<char>>,
>;

/// The error that `cw_storage_plus::Map::may_load` gives for an entry that
/// does not parse.
pub uninterp spec fn read_failure(
    store: MemoryStorage,
    namespace: Seq<char>,
    key: Seq<char>,
) -> StdError;

/// The entries that a `cw_storage_plus::MultiIndex` keyed by address keeps in
/// the store under this index namespace: pairs of the text of an indexed address and the
/// bytes of a primary key.
pub uninterp spec fn stored_index(store: MemoryStorage, namespace: Seq<char>) -> Set<
    (Seq<char>, Seq<u8>),
>;

/// The longest namespace or address, in bytes, that a storage key can carry:
/// the key encoding writes its length in two bytes.
pub const MAX_KEY_PART: usize = 0xFFFF;

/// A namespace or an address can be part of a storage key: it is at most
/// `MAX_KEY_PART` bytes long.
pub open spec fn fits(text: Seq<char>) -> bool {
    encode_utf8(text).len() <= MAX_KEY_PART
}

/// A text of at most 16383 characters fits: no character takes more than
/// four bytes.
pub proof fn lemma_short_text_fits(text: Seq<char>)
    requires
        text.len() <= 0x3FFF,
    ensures
        fits(text),
{
    lemma_encoded_len(text);
}

/// The encoding of a text is at most four bytes for each character.
proof fn lemma_encoded_len(text: Seq<char>)
    ensures
        encode_utf8(text).len() <= 4 * text.len(),
    decreases text.len(),
{
    if text.len() > 0 {
        lemma_encoded_len(text.drop_first());
    }
}

/// `Addr::as_str`: the text of the address.
#[verifier::external_body]
pub(crate) fn addr_str(addr: &Addr) -> (text: &str)
    ensures
        text@ == addr_text(*addr),
{
    addr.as_str()
}

/// `Addr`'s `==`, derived on its one `String` field: two addresses are equal
/// exactly when their texts are.
#[verifier::external_body]
pub(crate) fn addr_eq(a: &Addr, b: &Addr) -> (same: bool)
    ensures
        same == (addr_text(*a) == addr_text(*b)),
{
    a == b
}

/// `cw_storage_plus::Map::may_load`: `Ok(None)` where nothing is stored under the key, the
/// parsed address where the stored bytes parse, else the parse error. The
/// namespace must fit, or the key encoding panics.
#[verifier::external_body]
pub(crate) fn load_grant(store: &MemoryStorage, namespace: &str, key: &str) -> (found: Result<
    Option<Addr>,
    StdError,
>)
    requires
        fits(namespace@),
    ensures
        match found {
            Ok(None) => !stored_grants(*store, namespace@).contains_key(key@),
            Ok(Some(addr)) => stored_grants(*store, namespace@).contains_key(key@)
                && stored_grants(*store, namespace@)[key@] == Some(addr_text(addr)),
            Err(e) => stored_grants(*store, namespace@).contains_key(key@) && stored_grants(
                *store,
                namespace@,
            )[key@] is None && e == read_failure(*store, namespace@, key@),
        },
{
    cw_storage_plus::Map::<&str, Addr>::new(namespace).may_load(store, key)
}

/// `cw_storage_plus::Map::save`: writes the address under the key, as a
/// JSON string, which the serializer writes without a failing path, so the
/// call returns `Ok`; a later load under the key gives the address back.
/// Storage keys begin with the length of the namespace and the namespace,
/// so nothing under another namespace changes. The namespace must fit, or
/// the key encoding panics.
#[verifier::external_body]
pub(crate) fn save_grant(store: &mut MemoryStorage, namespace: &str, key: &str, addr: &Addr) -> (done:
    Result<(), StdError>)
    requires
        fits(namespace@),
    ensures
        done is Ok,
        stored_grants(*final(store), namespace@) == stored_grants(*old(store), namespace@).insert(
            key@,
            Some(addr_text(*addr)),
        ),
        forall|other: Seq<char>|
            other != namespace@ ==> #[trigger] stored_grants(*final(store), other) == stored_grants(
                *old(store),
                other,
            ),
        forall|other: Seq<char>|
            other != namespace@ ==> #[trigger] stored_index(*final(store), other) == stored_index(
                *old(store),
                other,
            ),
{
    cw_storage_plus::Map::<&str, Addr>::new(namespace).save(store, key, addr)
}

/// `cw_storage_plus::Map::remove`: removes the entry under the key, if there
/// is one. Nothing under another namespace changes. The namespace must fit,
/// or the key encoding panics.
#[verifier::external_body]
pub(crate) fn remove_grant(store: &mut MemoryStorage, namespace: &str, key: &str)
    requires
        fits(namespace@),
    ensures
        stored_grants(*final(store), namespace@) == stored_grants(*old(store), namespace@).remove(
            key@,
        ),
        forall|other: Seq<char>|
            other != namespace@ ==> #[trigger] stored_grants(*final(store), other) == stored_grants(
                *old(store),
                other,
            ),
        forall|other: Seq<char>|
            other != namespace@ ==> #[trigger] stored_index(*final(store), other) == stored_index(
                *old(store),
                other,
            ),
{
    cw_storage_plus::Map::<&str, Addr>::new(namespace).remove(store, key)
}

/// `cw_storage_plus::MultiIndex`'s `Index::save`: adds the pair of the address and the
/// primary key to the index. Its value is the key's length as a JSON number,
/// which the serializer writes without a failing path, so the call returns
/// `Ok`. Nothing under another namespace changes. The index namespace and
/// the address must fit, or the key encoding panics.
#[verifier::external_body]
pub(crate) fn index_save(
    store: &mut MemoryStorage,
    namespace: &str,
    index_namespace: &str,
    addr: &Addr,
    key: &str,
) -> (done: Result<(), StdError>)
    requires
        fits(index_namespace@),
        fits(addr_text(*addr)),
    ensures
        done is Ok,
        stored_index(*final(store), index_namespace@) == stored_index(
            *old(store),
            index_namespace@,
        ).insert((addr_text(*addr), encode_utf8(key@))),
        forall|other: Seq<char>|
            other != index_namespace@ ==> #[trigger] stored_index(*final(store), other)
                == stored_index(*old(store), other),
        forall|other: Seq<char>|
            other != index_namespace@ ==> #[trigger] stored_grants(*final(store), other)
                == stored_grants(*old(store), other),
{
    MultiIndex::<Addr, Addr, String>::new(Addr::clone, namespace, index_namespace).save(
        store,
        key.as_bytes(),
        addr,
    )
}

/// `cw_storage_plus::MultiIndex`'s `Index::remove`: takes the pair of the address and the
/// primary key out of the index, if it is there, and returns `Ok`. Nothing
/// under another namespace changes. The index namespace and the address
/// must fit, or the key encoding panics.
#[verifier::external_body]
pub(crate) fn index_remove(
    store: &mut MemoryStorage,
    namespace: &str,
    index_namespace: &str,
    addr: &Addr,
    key: &str,
) -> (done: Result<(), StdError>)
    requires
        fits(index_namespace@),
        fits(addr_text(*addr)),
    ensures
        done is Ok,
        stored_index(*final(store), index_namespace@) == stored_index(
            *old(store),
            index_namespace@,
        ).remove((addr_text(*addr), encode_utf8(key@))),
        forall|other: Seq<char>|
            other != index_namespace@ ==> #[trigger] stored_index(*final(store), other)
                == stored_index(*old(store), other),
        forall|other: Seq<char>|
            other != index_namespace@ ==> #[trigger] stored_grants(*final(store), other)
                == stored_grants(*old(store), other),
{
    MultiIndex::<Addr, Addr, String>::new(Addr::clone, namespace, index_namespace).remove(
        store,
        key.as_bytes(),
        addr,
    )
}

/// `cw_storage_plus::MultiIndex::prefix` and `Prefix::keys_raw`: the primary
/// keys that the index holds for the address, as raw bytes. The index namespace and the
/// address must fit, or the key encoding panics.
#[verifier::external_body]
pub(crate) fn index_keys(
    store: &MemoryStorage,
    namespace: &str,
    index_namespace: &str,
    addr: &Addr,
) -> (keys: Vec<Vec<u8>>)
    requires
        fits(index_namespace@),
        fits(addr_text(*addr)),
    ensures
        forall|key: Seq<u8>|
            stored_index(*store, index_namespace@).contains((addr_text(*addr), key)) <==> exists|
                i: int,
            |
                0 <= i < keys@.len() && #[trigger] keys@[i]@ == key,
{
    MultiIndex::<Addr, Addr, String>::new(Addr::clone, namespace, index_namespace)
        .prefix(addr.clone())
        .keys_raw(store, None, None, Order::Ascending)
        .collect()
}

} // verus!
