//! The registry that finds compression providers by encoding name.
use bytes::Bytes;
use std::sync::Arc;
use vstd::prelude::*;

use super::gzip::GzipProvider;
use super::outcome_view;
use super::zstandard::ZstdProvider;
use super::CompressionProvider;
use super::Outcome;
use super::ReadView;
use crate::buffer::BufferView;
use crate::envelope::over_limit_error;
use crate::envelope::over_limit_text;
use crate::error::plain_error;
use crate::error::ConnectError;
use crate::error::ErrorCode;
use crate::error::ErrorView;
use crate::text::chars_of;
use crate::text::lemma_precedes_total;
use crate::text::lemma_precedes_transitive;
use crate::text::precedes;
use crate::text::split;
use crate::text::split_text;
use crate::text::str_eq;
use crate::text::text_precedes;
use crate::text::texts;
use crate::text::trim_text;
use crate::text::trimmed;

verus! {

/// A provider from outside this crate.
pub struct CustomProvider {
    /// The provider.
    pub inner: Box<dyn CompressionProvider>,
}

/// A registered provider.
pub enum Provider {
    /// Gzip.
    Gzip(GzipProvider),
    /// Zstandard.
    Zstd(ZstdProvider),
    /// A provider from outside this crate.
    Custom(CustomProvider),
}

/// What can be registered.
pub trait IntoProvider: Sized {
    /// The provider that is registered.
    spec fn provider(self) -> Provider;

    /// The provider that is registered.
    fn into_provider(self) -> (provider: Provider)
        ensures
            provider == self.provider(),
    ;
}

impl IntoProvider for GzipProvider {
    open spec fn provider(self) -> Provider {
        Provider::Gzip(self)
    }

    fn into_provider(self) -> (provider: Provider) {
        Provider::Gzip(self)
    }
}

impl IntoProvider for ZstdProvider {
    open spec fn provider(self) -> Provider {
        Provider::Zstd(self)
    }

    fn into_provider(self) -> (provider: Provider) {
        Provider::Zstd(self)
    }
}

impl IntoProvider for CustomProvider {
    open spec fn provider(self) -> Provider {
        Provider::Custom(self)
    }

    fn into_provider(self) -> (provider: Provider) {
        Provider::Custom(self)
    }
}

impl Provider {
    /// The encoding name.
    pub open spec fn label(&self) -> Seq<char> {
        match self {
            Provider::Gzip(p) => p.label(),
            Provider::Zstd(p) => p.label(),
            Provider::Custom(p) => p.inner.label(),
        }
    }

    /// What compressing may come to.
    pub open spec fn compresses(&self, data: Seq<u8>, r: Outcome) -> bool {
        match self {
            Provider::Gzip(p) => p.compresses(data, r),
            Provider::Zstd(p) => p.compresses(data, r),
            Provider::Custom(p) => p.inner.compresses(data, r),
        }
    }

    /// What decompressing under a limit may come to. Whatever comes out keeps
    /// to the limit.
    pub open spec fn decompresses(&self, data: Seq<u8>, max: nat, r: Outcome) -> bool {
        &&& r matches Ok(b) ==> b.len() <= max
        &&& match self {
            Provider::Gzip(p) => p.decompresses(data, max, r),
            Provider::Zstd(p) => p.decompresses(data, max, r),
            Provider::Custom(p) => p.inner.decompresses(data, max, r) || exists|read: Result<ReadView, ErrorView>| #[trigger]
                p.inner.reads(data, super::one_beyond(max), read) && r == super::limited(read, max),
        }
    }

    /// The encoding name.
    pub fn name(&self) -> (name: &'static str)
        ensures
            name@ == self.label(),
    {
        match self {
            Provider::Gzip(p) => p.name(),
            Provider::Zstd(p) => p.name(),
            Provider::Custom(p) => p.inner.name(),
        }
    }

    /// Compress the given data.
    pub fn compress(&self, data: &[u8]) -> (r: Result<Bytes, ConnectError>)
        ensures
            self.compresses(data@, outcome_view(r)),
    {
        match self {
            Provider::Gzip(p) => p.compress(data),
            Provider::Zstd(p) => p.compress(data),
            Provider::Custom(p) => p.inner.compress(data),
        }
    }

    /// Decompress the given data, and refuse it where it exceeds `max_size`.
    pub fn decompress_with_limit(&self, data: &[u8], max_size: usize) -> (r: Result<Bytes, ConnectError>)
        ensures
            self.decompresses(data@, max_size as nat, outcome_view(r)),
    {
        match self {
            Provider::Gzip(p) => p.decompress_with_limit(data, max_size),
            Provider::Zstd(p) => p.decompress_with_limit(data, max_size),
            Provider::Custom(p) => p.inner.decompress_with_limit(data, max_size),
        }
    }
}

/// A registered encoding.
struct Entry {
    name: &'static str,
    provider: Arc<Provider>,
    streaming: Option<Arc<Provider>>,
}

/// What a registry holds.
#[verifier::ext_equal]
pub struct RegistryView {
    /// The provider of each encoding.
    pub providers: Map<Seq<char>, Provider>,
    /// The provider of each encoding that can be streamed.
    pub streaming: Map<Seq<char>, Provider>,
}

/// Registry of compression providers.
///
/// The registry maps encoding names to their providers. Entries are kept in
/// the order of their names, and the list of names for Accept-Encoding headers
/// is kept ready.
pub struct CompressionRegistry {
    entries: Vec<Entry>,
    accept_encoding: String,
}

spec fn entry_names(entries: Seq<Entry>) -> Seq<Seq<char>> {
    Seq::new(entries.len(), |i: int| entries[i].name@)
}

/// Names in strictly ascending order.
pub open spec fn ascending(names: Seq<Seq<char>>) -> bool {
    forall|i: int, j: int| 0 <= i < j < names.len() ==> precedes(#[trigger] names[i], #[trigger] names[j])
}

/// Names with commas between them.
pub open spec fn comma_joined(names: Seq<Seq<char>>) -> Seq<char>
    decreases names.len(),
{
    if names.len() == 0 {
        Seq::empty()
    } else if names.len() == 1 {
        names[0]
    } else {
        comma_joined(names.drop_last()) + ", "@ + names.last()
    }
}

/// The first name that is not `identity` and that `offered` holds.
pub open spec fn first_offered(wanted: Seq<Seq<char>>, offered: Set<Seq<char>>) -> Option<Seq<char>>
    decreases wanted.len(),
{
    if wanted.len() == 0 {
        None
    } else if wanted[0] != "identity"@ && offered.contains(wanted[0]) {
        Some(wanted[0])
    } else {
        first_offered(wanted.drop_first(), offered)
    }
}

/// The names of an Accept-Encoding header in order of preference.
pub open spec fn accepted_names(header: Seq<char>) -> Seq<Seq<char>> {
    split(header, ',').map_values(|piece: Seq<char>| trimmed(piece))
}

/// The encoding of a response: the first that the client lists and the
/// registry has, or that of the request where the client lists none.
pub open spec fn negotiated(
    accept: Option<Seq<char>>,
    request: Option<Seq<char>>,
    offered: Set<Seq<char>>,
) -> Option<Seq<char>> {
    match accept {
        Some(header) => first_offered(accepted_names(header), offered),
        None => match request {
            Some(name) => first_offered(seq![name], offered),
            None => None,
        },
    }
}

/// The text of the error for an encoding that is not registered.
pub open spec fn unsupported_text(encoding: Seq<char>) -> Seq<char> {
    "unsupported compression encoding: "@ + encoding
}

/// The error for an encoding that is not registered.
fn unsupported_error(what: &str, encoding: &str) -> (err: ConnectError)
    ensures
        err@ == plain_error(ErrorCode::Unimplemented, what@ + encoding@),
{
    let mut message = what.to_owned();
    message.push_str(encoding);
    ConnectError::unimplemented(message)
}

/// What decompressing through a registry may come to: the data itself for
/// `identity`, an error for an encoding that is not registered, nothing for
/// nothing, and else what the provider makes of it.
pub open spec fn registry_decompresses(
    registry: RegistryView,
    encoding: Seq<char>,
    data: Seq<u8>,
    max: nat,
    r: Outcome,
) -> bool {
    if encoding == "identity"@ {
        r == if data.len() > max {
            Outcome::Err(
                plain_error(ErrorCode::ResourceExhausted, over_limit_text("message"@, data.len(), max)),
            )
        } else {
            Outcome::Ok(data)
        }
    } else if !registry.providers.contains_key(encoding) {
        r == Outcome::Err(plain_error(ErrorCode::Unimplemented, unsupported_text(encoding)))
    } else if data.len() == 0 {
        r == Outcome::Ok(data)
    } else {
        registry.providers[encoding].decompresses(data, max, r)
    }
}

/// What compressing through a registry may come to.
pub open spec fn registry_compresses(
    registry: RegistryView,
    encoding: Seq<char>,
    data: Seq<u8>,
    r: Outcome,
) -> bool {
    if encoding == "identity"@ {
        r == Outcome::Ok(data)
    } else if !registry.providers.contains_key(encoding) {
        r == Outcome::Err(plain_error(ErrorCode::Unimplemented, unsupported_text(encoding)))
    } else {
        registry.providers[encoding].compresses(data, r)
    }
}

/// How a stream is to be coded.
pub enum StreamCoding {
    /// As it is.
    Identity,
    /// By this provider.
    Coded(Arc<Provider>),
}

/// How a stream of the given encoding is to be coded, or the error for an
/// encoding that cannot be streamed.
pub open spec fn stream_coding(
    registry: RegistryView,
    what: Seq<char>,
    encoding: Seq<char>,
    r: Result<StreamCoding, ConnectError>,
) -> bool {
    if encoding == "identity"@ {
        r matches Ok(StreamCoding::Identity)
    } else if registry.streaming.contains_key(encoding) {
        r matches Ok(StreamCoding::Coded(p)) && *p == registry.streaming[encoding]
    } else {
        r matches Err(e) && e@ == plain_error(ErrorCode::Unimplemented, what + encoding)
    }
}

spec fn provider_map(entries: Seq<Entry>) -> Map<Seq<char>, Provider> {
    Map::new(
        |name: Seq<char>| exists|i: int| 0 <= i < entries.len() && #[trigger] entries[i].name@ == name,
        |name: Seq<char>|
            *entries[choose|i: int| 0 <= i < entries.len() && #[trigger] entries[i].name@ == name].provider,
    )
}

spec fn streaming_map(entries: Seq<Entry>) -> Map<Seq<char>, Provider> {
    Map::new(
        |name: Seq<char>|
            exists|i: int|
                0 <= i < entries.len() && #[trigger] entries[i].name@ == name && entries[i].streaming is Some,
        |name: Seq<char>|
            *entries[choose|i: int|
                0 <= i < entries.len() && #[trigger] entries[i].name@ == name
                    && entries[i].streaming is Some].streaming->0,
    )
}

/// In ascending order no name stands twice.
proof fn lemma_names_differ(entries: Seq<Entry>)
    requires
        ascending(entry_names(entries)),
    ensures
        forall|i: int, j: int|
            0 <= i < entries.len() && 0 <= j < entries.len() && #[trigger] entries[i].name@ == #[trigger] entries[j].name@
                ==> i == j,
{
    let names = entry_names(entries);
    assert forall|i: int, j: int|
        0 <= i < entries.len() && 0 <= j < entries.len() && #[trigger] entries[i].name@ == #[trigger] entries[j].name@ implies i
        == j by {
        lemma_precedes_total(names[i], names[j]);
        if i < j {
            assert(precedes(names[i], names[j]));
        } else if j < i {
            assert(precedes(names[j], names[i]));
        }
    }
}

impl View for CompressionRegistry {
    type V = RegistryView;

    closed spec fn view(&self) -> RegistryView {
        RegistryView { providers: provider_map(self.entries@), streaming: streaming_map(self.entries@) }
    }
}

impl Clone for CompressionRegistry {
    /// Another registry with the same providers, which share their pools.
    fn clone(&self) -> (copy: Self)
        ensures
            copy@ == self@,
            copy.names() == self.names(),
    {
        proof {
            use_type_invariant(self);
        }
        let mut entries: Vec<Entry> = Vec::new();
        let mut i: usize = 0;
        while i < self.entries.len()
            invariant
                i <= self.entries@.len(),
                entries@ == self.entries@.take(i as int),
            decreases self.entries@.len() - i,
        {
            let entry = &self.entries[i];
            let copied = Entry {
                name: entry.name,
                provider: entry.provider.clone(),
                streaming: match &entry.streaming {
                    Some(p) => Some(p.clone()),
                    None => None,
                },
            };
            entries.push(copied);
            assert(copied == self.entries@[i as int]);
            assert(entries@ =~= self.entries@.take(i as int + 1));
            i = i + 1;
        }
        assert(entries@ =~= self.entries@);
        CompressionRegistry { entries, accept_encoding: self.accept_encoding.clone() }
    }
}

impl CompressionRegistry {
    #[verifier::type_invariant]
    spec fn type_inv(self) -> bool {
        &&& ascending(entry_names(self.entries@))
        &&& self.accept_encoding@ == comma_joined(entry_names(self.entries@))
    }

    /// The registered names in ascending order.
    pub closed spec fn names(&self) -> Seq<Seq<char>> {
        entry_names(self.entries@)
    }

    /// Create an empty compression registry.
    pub fn new() -> (registry: Self)
        ensures
            registry@.providers == Map::<Seq<char>, Provider>::empty(),
            registry@.streaming == Map::<Seq<char>, Provider>::empty(),
            registry.names() == Seq::<Seq<char>>::empty(),
    {
        let entries: Vec<Entry> = Vec::new();
        let accept_encoding = String::new();
        assert(entry_names(entries@) =~= Seq::empty());
        let registry = CompressionRegistry { entries, accept_encoding };
        assert(registry@.providers =~= Map::<Seq<char>, Provider>::empty());
        assert(registry@.streaming =~= Map::<Seq<char>, Provider>::empty());
        registry
    }

    /// The list of names for Accept-Encoding headers.
    fn joined_names(entries: &Vec<Entry>) -> (text: String)
        ensures
            text@ == comma_joined(entry_names(entries@)),
    {
        let mut text = String::new();
        let mut i: usize = 0;
        let ghost names = entry_names(entries@);
        assert(names.take(0) =~= Seq::empty());
        while i < entries.len()
            invariant
                i <= entries@.len(),
                names == entry_names(entries@),
                text@ == comma_joined(names.take(i as int)),
            decreases entries@.len() - i,
        {
            if i > 0 {
                text.push_str(", ");
            }
            text.push_str(entries[i].name);
            proof {
                let longer = names.take(i as int + 1);
                assert(longer.drop_last() =~= names.take(i as int));
                if i == 0 {
                    assert(text@ =~= comma_joined(longer));
                }
            }
            i = i + 1;
        }
        assert(names.take(names.len() as int) =~= names);
        text
    }

    /// The place of a name, or where it would have to be put.
    fn locate(entries: &Vec<Entry>, name: &str) -> (place: (usize, bool))
        requires
            ascending(entry_names(entries@)),
        ensures
            place.0 <= entries@.len(),
            place.1 ==> place.0 < entries@.len() && entries@[place.0 as int].name@ == name@,
            !place.1 ==> forall|i: int| 0 <= i < entries@.len() ==> #[trigger] entries@[i].name@ != name@,
            forall|i: int| 0 <= i < place.0 ==> precedes(#[trigger] entries@[i].name@, name@),
            !place.1 ==> forall|i: int|
                place.0 <= i < entries@.len() ==> precedes(name@, #[trigger] entries@[i].name@),
    {
        let ghost names = entry_names(entries@);
        let mut i: usize = 0;
        while i < entries.len() && text_precedes(entries[i].name, name)
            invariant
                i <= entries@.len(),
                forall|j: int| 0 <= j < i ==> precedes(#[trigger] entries@[j].name@, name@),
            decreases entries@.len() - i,
        {
            i = i + 1;
        }
        let found = i < entries.len() && str_eq(entries[i].name, name);
        proof {
            if !found {
                assert forall|j: int| i <= j < entries@.len() implies precedes(name@, #[trigger] entries@[j].name@) by {
                    lemma_precedes_total(entries@[i as int].name@, name@);
                    if j > i {
                        assert(precedes(names[i as int], names[j]));
                        lemma_precedes_transitive(name@, names[i as int], names[j]);
                    }
                }
                assert forall|j: int| 0 <= j < entries@.len() implies #[trigger] entries@[j].name@ != name@ by {
                    lemma_precedes_total(entries@[j].name@, name@);
                    lemma_precedes_total(name@, entries@[j].name@);
                }
            }
        }
        (i, found)
    }

    /// Register a provider under its name, for streams too or not.
    fn insert(self, provider: Provider, streaming: bool) -> (registry: Self)
        ensures
            registry@.providers == self@.providers.insert(provider.label(), provider),
            registry@.streaming == if streaming {
                self@.streaming.insert(provider.label(), provider)
            } else {
                self@.streaming
            },
    {
        proof {
            use_type_invariant(&self);
        }
        let ghost before = self.entries@;
        let name = provider.name();
        let shared = Arc::new(provider);
        let CompressionRegistry { mut entries, accept_encoding: _ } = self;
        let (at, found) = CompressionRegistry::locate(&entries, name);
        if found {
            let entry = Entry {
                name,
                provider: shared.clone(),
                streaming: if streaming {
                    Some(shared)
                } else {
                    match &entries[at].streaming {
                        Some(p) => Some(p.clone()),
                        None => None,
                    }
                },
            };
            entries.set(at, entry);
            assert(entry_names(entries@) =~= entry_names(before));
        } else {
            let entry = Entry {
                name,
                provider: shared.clone(),
                streaming: if streaming {
                    Some(shared)
                } else {
                    None
                },
            };
            entries.insert(at, entry);
            assert(entries@[at as int] == entry);
            assert(entry_names(entries@) =~= entry_names(before).insert(at as int, name@));
            assert forall|i: int, j: int| 0 <= i < j < entries@.len() implies precedes(
                #[trigger] entry_names(entries@)[i],
                #[trigger] entry_names(entries@)[j],
            ) by {
                let names = entry_names(before);
                let x = if i < at {
                    i
                } else {
                    i - 1
                };
                let y = if j < at {
                    j
                } else {
                    j - 1
                };
                if i != at && j != at {
                    assert(precedes(names[x], names[y]));
                } else if i == at {
                    assert(before[y].name@ == names[y]);
                } else {
                    assert(before[x].name@ == names[x]);
                }
            }
        }
        let accept_encoding = CompressionRegistry::joined_names(&entries);
        let registry = CompressionRegistry { entries, accept_encoding };
        proof {
            let after = registry.entries@;
            lemma_names_differ(before);
            lemma_names_differ(after);
            lemma_insert_maps(before, after, at as int, found);
            assert(registry@.providers =~= provider_map(before).insert(name@, provider));
            assert(registry@.streaming =~= if streaming {
                streaming_map(before).insert(name@, provider)
            } else {
                streaming_map(before)
            });
        }
        registry
    }

    /// Register a compression provider under its name, in place of one that
    /// has the name already.
    pub fn register<P: IntoProvider>(self, provider: P) -> (registry: Self)
        ensures
            registry@.providers == self@.providers.insert(provider.provider().label(), provider.provider()),
            registry@.streaming == self@.streaming,
    {
        self.insert(provider.into_provider(), false)
    }

    /// Register a compression provider for buffered data and for streams.
    pub fn register_streaming<P: IntoProvider>(self, provider: P) -> (registry: Self)
        ensures
            registry@.providers == self@.providers.insert(provider.provider().label(), provider.provider()),
            registry@.streaming == self@.streaming.insert(provider.provider().label(), provider.provider()),
    {
        self.insert(provider.into_provider(), true)
    }

    /// Get a provider by encoding name.
    pub fn get(&self, name: &str) -> (provider: Option<Arc<Provider>>)
        ensures
            match provider {
                Some(p) => self@.providers.contains_key(name@) && *p == self@.providers[name@],
                None => !self@.providers.contains_key(name@),
            },
    {
        proof {
            use_type_invariant(self);
            lemma_names_differ(self.entries@);
        }
        let (at, found) = CompressionRegistry::locate(&self.entries, name);
        if found {
            Some(self.entries[at].provider.clone())
        } else {
            None
        }
    }

    /// Get a streaming provider by encoding name.
    pub fn get_streaming(&self, name: &str) -> (provider: Option<Arc<Provider>>)
        ensures
            match provider {
                Some(p) => self@.streaming.contains_key(name@) && *p == self@.streaming[name@],
                None => !self@.streaming.contains_key(name@),
            },
    {
        proof {
            use_type_invariant(self);
            lemma_names_differ(self.entries@);
        }
        let (at, found) = CompressionRegistry::locate(&self.entries, name);
        if found {
            match &self.entries[at].streaming {
                Some(p) => Some(p.clone()),
                None => None,
            }
        } else {
            None
        }
    }

    /// Check if a provider is registered for the given encoding name.
    pub fn supports(&self, name: &str) -> (supported: bool)
        ensures
            supported == self@.providers.contains_key(name@),
    {
        self.get(name).is_some()
    }

    /// Check if streaming compression is supported for the given encoding name.
    pub fn supports_streaming(&self, name: &str) -> (supported: bool)
        ensures
            supported == self@.streaming.contains_key(name@),
    {
        self.get_streaming(name).is_some()
    }

    /// List all supported encoding names, in ascending order.
    pub fn supported_encodings(&self) -> (names: Vec<&'static str>)
        ensures
            names@.map_values(|name: &'static str| name@) == self.names(),
            ascending(self.names()),
            self.names().to_set() == self@.providers.dom(),
    {
        proof {
            use_type_invariant(self);
        }
        let mut names: Vec<&'static str> = Vec::new();
        let mut i: usize = 0;
        while i < self.entries.len()
            invariant
                i <= self.entries@.len(),
                names@.len() == i,
                forall|j: int| 0 <= j < i ==> (#[trigger] names@[j])@ == self.entries@[j].name@,
            decreases self.entries@.len() - i,
        {
            names.push(self.entries[i].name);
            i = i + 1;
        }
        assert(names@.map_values(|name: &'static str| name@) =~= self.names());
        proof {
            self.lemma_names_are_keys();
        }
        names
    }

    proof fn lemma_names_are_keys(&self)
        ensures
            self.names().to_set() == self@.providers.dom(),
    {
        assert forall|name: Seq<char>| self.names().to_set().contains(name) <==> self@.providers.dom().contains(name) by {
            if self.names().contains(name) {
                let i = choose|i: int| 0 <= i < self.names().len() && self.names()[i] == name;
                assert(self.entries@[i].name@ == name);
            }
            if self@.providers.dom().contains(name) {
                let i = choose|i: int| 0 <= i < self.entries@.len() && #[trigger] self.entries@[i].name@ == name;
                assert(self.names()[i] == name);
            }
        }
        assert(self.names().to_set() =~= self@.providers.dom());
    }

    /// Get a comma-separated string of supported encodings, as for
    /// Accept-Encoding headers.
    pub fn accept_encoding_header(&self) -> (header: &str)
        ensures
            header@ == comma_joined(self.names()),
            ascending(self.names()),
            self.names().to_set() == self@.providers.dom(),
    {
        proof {
            use_type_invariant(self);
            self.lemma_names_are_keys();
        }
        self.accept_encoding.as_str()
    }

    /// The registered name that equals the given one, unless it is `identity`.
    fn offered(&self, name: &str) -> (key: Option<&'static str>)
        ensures
            match key {
                Some(k) => k@ == name@ && name@ != "identity"@ && self@.providers.contains_key(name@),
                None => name@ == "identity"@ || !self@.providers.contains_key(name@),
            },
    {
        proof {
            use_type_invariant(self);
            lemma_names_differ(self.entries@);
        }
        if str_eq(name, "identity") {
            return None;
        }
        let (at, found) = CompressionRegistry::locate(&self.entries, name);
        if found {
            Some(self.entries[at].name)
        } else {
            None
        }
    }

    /// Negotiate a response encoding based on the client's accept-encoding
    /// header, an ordered list with the most preferred first.
    ///
    /// If the client omits the header, it is assumed to accept the encoding of
    /// its request.
    pub fn negotiate_encoding(&self, accept_encoding: Option<&str>, request_encoding: Option<&str>) -> (name: Option<
        &'static str,
    >)
        ensures
            (match name {
                Some(n) => Some(n@),
                None => None,
            }) == negotiated(
                match accept_encoding {
                    Some(s) => Some(s@),
                    None => None,
                },
                match request_encoding {
                    Some(s) => Some(s@),
                    None => None,
                },
                self@.providers.dom(),
            ),
    {
        if let Some(accept) = accept_encoding {
            let chars = chars_of(accept);
            let pieces = split_text(chars.as_slice(), ',');
            let ghost wanted = accepted_names(accept@);
            let mut i: usize = 0;
            assert(wanted.skip(0) =~= wanted);
            while i < pieces.len()
                invariant
                    i <= pieces@.len(),
                    accept_encoding == Some(accept),
                    texts(pieces@) == split(accept@, ','),
                    wanted == accepted_names(accept@),
                    first_offered(wanted, self@.providers.dom()) == first_offered(
                        wanted.skip(i as int),
                        self@.providers.dom(),
                    ),
                decreases pieces@.len() - i,
            {
                let name = trim_text(pieces[i].as_str());
                assert(split(accept@, ',')[i as int] == pieces@[i as int]@);
                assert(wanted.skip(i as int)[0] == name@);
                assert(wanted.skip(i as int).drop_first() =~= wanted.skip(i as int + 1));
                assert(wanted.len() == pieces@.len());
                if let Some(key) = self.offered(name.as_str()) {
                    return Some(key);
                }
                i = i + 1;
            }
            return None;
        }
        match request_encoding {
            Some(name) => {
                assert(seq![name@].drop_first() =~= Seq::empty());
                reveal_with_fuel(first_offered, 2);
                self.offered(name)
            },
            None => None,
        }
    }

    /// Decompress data using the specified encoding with a size limit.
    ///
    /// Data of length zero is never handed to a decoder, which may reject it
    /// as an incomplete frame; but its encoding must be registered.
    pub fn decompress_with_limit(&self, encoding: &str, data: Bytes, max_size: usize) -> (r: Result<
        Bytes,
        ConnectError,
    >)
        ensures
            registry_decompresses(self@, encoding@, data@, max_size as nat, outcome_view(r)),
    {
        if str_eq(encoding, "identity") {
            if data.len() > max_size {
                return Err(over_limit_error("message", data.len(), max_size));
            }
            return Ok(data);
        }
        let provider = match self.get(encoding) {
            Some(p) => p,
            None => return Err(unsupported_error("unsupported compression encoding: ", encoding)),
        };
        if data.is_empty() {
            return Ok(data);
        }
        provider.decompress_with_limit(&data, max_size)
    }

    /// Compress data using the specified encoding.
    pub fn compress(&self, encoding: &str, data: &[u8]) -> (r: Result<Bytes, ConnectError>)
        ensures
            registry_compresses(self@, encoding@, data@, outcome_view(r)),
    {
        if str_eq(encoding, "identity") {
            return Ok(Bytes::copy_from_slice(data));
        }
        match self.get(encoding) {
            Some(provider) => provider.compress(data),
            None => Err(unsupported_error("unsupported compression encoding: ", encoding)),
        }
    }

    /// How a stream of the specified encoding is to be decompressed.
    pub fn decompress_stream(&self, encoding: &str) -> (r: Result<StreamCoding, ConnectError>)
        ensures
            stream_coding(self@, "streaming decompression not supported for encoding: "@, encoding@, r),
    {
        if str_eq(encoding, "identity") {
            return Ok(StreamCoding::Identity);
        }
        match self.get_streaming(encoding) {
            Some(provider) => Ok(StreamCoding::Coded(provider)),
            None => Err(unsupported_error("streaming decompression not supported for encoding: ", encoding)),
        }
    }

    /// How a stream is to be compressed with the specified encoding.
    pub fn compress_stream(&self, encoding: &str) -> (r: Result<StreamCoding, ConnectError>)
        ensures
            stream_coding(self@, "streaming compression not supported for encoding: "@, encoding@, r),
    {
        if str_eq(encoding, "identity") {
            return Ok(StreamCoding::Identity);
        }
        match self.get_streaming(encoding) {
            Some(provider) => Ok(StreamCoding::Coded(provider)),
            None => Err(unsupported_error("streaming compression not supported for encoding: ", encoding)),
        }
    }
}

/// One entry was set in place of another of its name, or inserted.
spec fn one_entry_changed(before: Seq<Entry>, after: Seq<Entry>, at: int, found: bool) -> bool {
    &&& 0 <= at < after.len()
    &&& found ==> at < before.len() && after == before.update(at, after[at]) && after[at].name@ == before[at].name@
    &&& !found ==> at <= before.len() && after == before.insert(at, after[at])
    &&& !found ==> forall|i: int| 0 <= i < before.len() ==> #[trigger] before[i].name@ != after[at].name@
    &&& ascending(entry_names(before))
    &&& ascending(entry_names(after))
}

/// The entry of a name.
spec fn entry_of(entries: Seq<Entry>, name: Seq<char>, entry: Entry) -> bool {
    exists|i: int| 0 <= i < entries.len() && #[trigger] entries[i] == entry && entry.name@ == name
}

/// A name other than that of the changed entry has the entry that it had.
proof fn lemma_other_entry(before: Seq<Entry>, after: Seq<Entry>, at: int, found: bool, name: Seq<char>, entry: Entry)
    requires
        one_entry_changed(before, after, at, found),
        name != after[at].name@,
    ensures
        entry_of(before, name, entry) == entry_of(after, name, entry),
{
    if entry_of(before, name, entry) {
        let i = choose|i: int| 0 <= i < before.len() && #[trigger] before[i] == entry && entry.name@ == name;
        let j = if !found && i >= at {
            i + 1
        } else {
            i
        };
        assert(after[j] == entry);
    }
    if entry_of(after, name, entry) {
        let j = choose|j: int| 0 <= j < after.len() && #[trigger] after[j] == entry && entry.name@ == name;
        let i = if !found && j > at {
            j - 1
        } else {
            j
        };
        assert(before[i] == entry);
    }
}

/// What the maps hold under a name.
proof fn lemma_entry_in_maps(entries: Seq<Entry>, name: Seq<char>)
    requires
        ascending(entry_names(entries)),
    ensures
        provider_map(entries).contains_key(name) <==> exists|entry: Entry| #[trigger] entry_of(entries, name, entry),
        forall|entry: Entry| #[trigger]
            entry_of(entries, name, entry) ==> {
                &&& provider_map(entries)[name] == *entry.provider
                &&& streaming_map(entries).contains_key(name) == (entry.streaming is Some)
                &&& entry.streaming is Some ==> streaming_map(entries)[name] == *entry.streaming->0
            },
        streaming_map(entries).contains_key(name) ==> provider_map(entries).contains_key(name),
{
    lemma_names_differ(entries);
    assert forall|entry: Entry| #[trigger] entry_of(entries, name, entry) implies {
        &&& provider_map(entries).contains_key(name)
        &&& provider_map(entries)[name] == *entry.provider
        &&& streaming_map(entries).contains_key(name) == (entry.streaming is Some)
        &&& entry.streaming is Some ==> streaming_map(entries)[name] == *entry.streaming->0
    } by {
        let i = choose|i: int| 0 <= i < entries.len() && #[trigger] entries[i] == entry && entry.name@ == name;
        assert(entries[i].name@ == name);
    }
    if provider_map(entries).contains_key(name) {
        let i = choose|i: int| 0 <= i < entries.len() && #[trigger] entries[i].name@ == name;
        assert(entry_of(entries, name, entries[i]));
    }
}

/// What setting or inserting one entry makes of the maps.
proof fn lemma_insert_maps(before: Seq<Entry>, after: Seq<Entry>, at: int, found: bool)
    requires
        one_entry_changed(before, after, at, found),
    ensures
        provider_map(after) == provider_map(before).insert(after[at].name@, *after[at].provider),
        streaming_map(after) == match after[at].streaming {
            Some(p) => streaming_map(before).insert(after[at].name@, *p),
            None => streaming_map(before).remove(after[at].name@),
        },
{
    let name = after[at].name@;
    assert(entry_of(after, name, after[at]));
    lemma_entry_in_maps(after, name);
    assert forall|n: Seq<char>| n != name implies {
        &&& #[trigger] provider_map(after).contains_key(n) == provider_map(before).contains_key(n)
        &&& provider_map(before).contains_key(n) ==> provider_map(after)[n] == provider_map(before)[n]
        &&& streaming_map(after).contains_key(n) == streaming_map(before).contains_key(n)
        &&& streaming_map(before).contains_key(n) ==> streaming_map(after)[n] == streaming_map(before)[n]
    } by {
        lemma_entry_in_maps(before, n);
        lemma_entry_in_maps(after, n);
        if provider_map(before).contains_key(n) {
            let entry = choose|entry: Entry| #[trigger] entry_of(before, n, entry);
            lemma_other_entry(before, after, at, found, n, entry);
        }
        if provider_map(after).contains_key(n) {
            let entry = choose|entry: Entry| #[trigger] entry_of(after, n, entry);
            lemma_other_entry(before, after, at, found, n, entry);
        }
    }
    assert(provider_map(after) =~= provider_map(before).insert(name, *after[at].provider));
    assert forall|n: Seq<char>| n != name implies #[trigger] streaming_map(after).contains_key(n) == streaming_map(
        before,
    ).contains_key(n) && (streaming_map(before).contains_key(n) ==> streaming_map(after)[n] == streaming_map(before)[n]) by {
        assert(provider_map(after).contains_key(n) == provider_map(before).contains_key(n));
    }
    match after[at].streaming {
        Some(p) => {
            assert(streaming_map(after) =~= streaming_map(before).insert(name, *p));
        },
        None => {
            assert(streaming_map(after) =~= streaming_map(before).remove(name));
        },
    }
}

impl Default for CompressionRegistry {
    /// Create a registry with all built-in providers.
    fn default() -> (registry: Self)
        ensures
            registry@.providers.dom() == set!["gzip"@, "zstd"@],
            registry@.streaming == registry@.providers,
            registry@.providers["gzip"@] matches Provider::Gzip(p) && p.compression_level()
                == GzipProvider::DEFAULT_LEVEL,
            registry@.providers["zstd"@] matches Provider::Zstd(p) && p.compression_level()
                == ZstdProvider::DEFAULT_LEVEL,
    {
        proof {
            reveal_strlit("gzip");
            reveal_strlit("zstd");
            assert("gzip"@[0] != "zstd"@[0]);
        }
        let registry = CompressionRegistry::new().register_streaming(GzipProvider::default()).register_streaming(
            ZstdProvider::default(),
        );
        assert(registry@.providers.dom() =~= set!["gzip"@, "zstd"@]);
        registry
    }
}

/// The list of names depends on which encodings are registered, and not on the
/// order in which they were: names in ascending order that make the same set
/// are the same names.
pub proof fn lemma_names_are_canonical(a: Seq<Seq<char>>, b: Seq<Seq<char>>)
    requires
        ascending(a),
        ascending(b),
        a.to_set() == b.to_set(),
    ensures
        a == b,
        comma_joined(a) == comma_joined(b),
    decreases a.len(),
{
    assert forall|n: Seq<char>| a.contains(n) == b.contains(n) by {
        assert(a.to_set().contains(n) == a.contains(n));
        assert(b.to_set().contains(n) == b.contains(n));
    }
    if a.len() == 0 {
        if b.len() > 0 {
            assert(b.contains(b[0]));
        }
        assert(a =~= b);
    } else {
        assert(a.contains(a.last()));
        assert(b.contains(a.last()));
        let j = choose|j: int| 0 <= j < b.len() && b[j] == a.last();
        assert(b.contains(b.last()));
        assert(a.contains(b.last()));
        let i = choose|i: int| 0 <= i < a.len() && a[i] == b.last();
        lemma_precedes_total(a.last(), b.last());
        if a.last() != b.last() {
            assert(precedes(a[i], a[a.len() - 1]));
            assert(precedes(b[j], b[b.len() - 1]));
            assert(false);
        }
        let (x, y) = (a.drop_last(), b.drop_last());
        assert forall|n: Seq<char>| x.to_set().contains(n) == y.to_set().contains(n) by {
            lemma_precedes_total(a.last(), a.last());
            if x.contains(n) {
                let k = choose|k: int| 0 <= k < x.len() && x[k] == n;
                assert(precedes(a[k], a[a.len() - 1]));
                assert(a[k] == n);
                assert(b.contains(n));
                let m = choose|m: int| 0 <= m < b.len() && b[m] == n;
                assert(y[m] == n);
            }
            if y.contains(n) {
                let k = choose|k: int| 0 <= k < y.len() && y[k] == n;
                assert(precedes(b[k], b[b.len() - 1]));
                assert(b[k] == n);
                assert(a.contains(n));
                let m = choose|m: int| 0 <= m < a.len() && a[m] == n;
                assert(x[m] == n);
            }
        }
        assert(x.to_set() =~= y.to_set());
        assert(ascending(x)) by {
            assert forall|p: int, q: int| 0 <= p < q < x.len() implies precedes(#[trigger] x[p], #[trigger] x[q]) by {
                assert(precedes(a[p], a[q]));
            }
        }
        assert(ascending(y)) by {
            assert forall|p: int, q: int| 0 <= p < q < y.len() implies precedes(#[trigger] y[p], #[trigger] y[q]) by {
                assert(precedes(b[p], b[q]));
            }
        }
        lemma_names_are_canonical(x, y);
        assert(a =~= x.push(a.last()));
        assert(b =~= y.push(b.last()));
    }
}

/// Whatever the encoding and the data, what comes out of decompressing keeps
/// to the limit.
pub proof fn lemma_decompressed_keeps_limit(
    registry: RegistryView,
    encoding: Seq<char>,
    data: Seq<u8>,
    max: nat,
    r: Outcome,
)
    requires
        registry_decompresses(registry, encoding, data, max, r),
    ensures
        r matches Ok(out) ==> out.len() <= max,
{
}

/// Encodings that this crate has itself, for data of a given length. Of gzip
/// that is no more data than a single call of the compressor can take.
pub open spec fn built_in(registry: RegistryView, encoding: Seq<char>, length: nat) -> bool {
    ||| encoding == "identity"@
    ||| registry.providers[encoding] is Gzip && length <= u32::MAX
    ||| registry.providers[encoding] is Zstd
}

/// Encodings whose decoder does not fail for want of memory.
pub open spec fn surely_decodes(registry: RegistryView, encoding: Seq<char>) -> bool {
    encoding == "identity"@ || registry.providers[encoding] is Gzip
}

/// What a registry compressed under `identity` or with gzip, it reads back. What
/// it compressed with zstd, it never reads back as anything else; it may fail
/// for want of memory.
pub proof fn lemma_registry_round_trip(
    registry: RegistryView,
    encoding: Seq<char>,
    data: Seq<u8>,
    packed: Seq<u8>,
    max: nat,
    r: Outcome,
)
    requires
        registry_compresses(registry, encoding, data, Outcome::Ok(packed)),
        registry_decompresses(registry, encoding, packed, max, r),
        built_in(registry, encoding, data.len()),
        data.len() <= max,
    ensures
        surely_decodes(registry, encoding) ==> r == Outcome::Ok(data),
        r is Ok ==> r == Outcome::Ok(data),
{
    if encoding != "identity"@ {
        if registry.providers[encoding] is Gzip {
            super::gzip::lemma_gzip_round_trip(data, packed, max, r);
        } else {
            super::zstandard::lemma_zstd_round_trip(data, packed, max, r);
        }
    }
}

} // verus!
