//! The container file: loader image, manifest of resources, end marker.
//!
//! ```text
//! [ loader image ][ resource 0 ] ... [ resource N-1 ][ end marker ]
//! ```
//!
//! The packer builds a container in one pass. The loader finds the end
//! marker in the last 20 bytes of its own image and walks the manifest from
//! the offset that the marker gives; the walk must end exactly where the end
//! marker begins.

use crate::codec::decoded;
use crate::error::{CodecError, EncodeError, TardisError};
use crate::lz4::{frameable, max_frame_len, MAX_FF_RUN};
use crate::serialization::{
    end_marker_bytes, lemma_end_marker_parse_is_exact, lemma_end_marker_round_trip,
    lemma_resource_bytes_len, lemma_resource_parse_is_exact, lemma_resource_round_trip, magic,
    parsed_end_marker, parsed_resource, EndMarker, ResourceView, TardisResource, END_MARKER_LEN,
};
use vstd::prelude::*;
use vstd::slice::slice_subrange;

verus! {

/// The views of a sequence of resources.
pub open spec fn views(resources: Seq<TardisResource>) -> Seq<ResourceView> {
    resources.map_values(|r: TardisResource| r@)
}

/// The manifest of `resources`: their serializations, one after the other.
pub open spec fn manifest_bytes(resources: Seq<ResourceView>) -> Seq<u8>
    decreases resources.len(),
{
    if resources.len() == 0 {
        Seq::empty()
    } else {
        manifest_bytes(resources.drop_last()) + resources.last().bytes()
    }
}

/// Whether every resource of the sequence can be stored.
pub open spec fn all_storable(resources: Seq<ResourceView>) -> bool {
    forall|i: int| 0 <= i < resources.len() ==> (#[trigger] resources[i]).storable()
}

/// The end marker of a container with the given loader image and resources.
pub open spec fn marker_of(loader: Seq<u8>, resources: Seq<ResourceView>) -> EndMarker {
    EndMarker { manifest_start: loader.len() as u64, n_resources: resources.len() as u64 }
}

/// The container that holds `resources` behind the loader image `loader`.
pub open spec fn container_bytes(loader: Seq<u8>, resources: Seq<ResourceView>) -> Seq<u8> {
    loader + manifest_bytes(resources) + end_marker_bytes(marker_of(loader, resources))
}

/// Walking `n` resources forward from `start` in `body`: the resources met
/// and the offset behind the last of them, or `None` where `body` ends
/// before the `n`-th resource does.
pub open spec fn walked(body: Seq<u8>, start: int, n: nat) -> Option<(Seq<ResourceView>, int)>
    decreases n,
{
    if n == 0 {
        Some((Seq::empty(), start))
    } else {
        match walked(body, start, (n - 1) as nat) {
            None => None,
            Some((resources, cursor)) => match parsed_resource(body, cursor) {
                None => None,
                Some((r, used)) => Some((resources.push(r), cursor + used)),
            },
        }
    }
}

/// What the loader makes of the file `image`: the end marker in its last 20
/// bytes and the resources of its manifest. `None` where the image is no
/// well-formed container: it is shorter than an end marker, its last bytes
/// lack the magic, the manifest starts behind the end marker's place, or the
/// walk over the announced number of resources does not end exactly where
/// the end marker begins.
pub open spec fn loaded(image: Seq<u8>) -> Option<(EndMarker, Seq<ResourceView>)> {
    if image.len() < END_MARKER_LEN {
        None
    } else {
        let body_len = image.len() - END_MARKER_LEN;
        let body = image.subrange(0, body_len);
        match parsed_end_marker(image.subrange(body_len, image.len() as int)) {
            None => None,
            Some(marker) => if marker.manifest_start > body_len {
                None
            } else {
                match walked(body, marker.manifest_start as int, marker.n_resources as nat) {
                    None => None,
                    Some((resources, cursor)) => if cursor == body_len {
                        Some((marker, resources))
                    } else {
                        None
                    },
                }
            },
        }
    }
}

/// A manifest is the manifest of its first resources followed by that of
/// the others.
pub proof fn lemma_manifest_bytes_concat(a: Seq<ResourceView>, b: Seq<ResourceView>)
    ensures
        manifest_bytes(a + b) == manifest_bytes(a) + manifest_bytes(b),
    decreases b.len(),
{
    if b.len() > 0 {
        lemma_manifest_bytes_concat(a, b.drop_last());
        assert((a + b).drop_last() =~= a + b.drop_last());
    }
}

/// The length of a manifest is the sum of the on-disk lengths of its
/// resources; in particular it grows by `disk_len` with every resource.
pub proof fn lemma_manifest_bytes_push(resources: Seq<ResourceView>, r: ResourceView)
    requires
        r.key.len() == crate::aead::KEY_LEN,
    ensures
        manifest_bytes(resources.push(r)) == manifest_bytes(resources) + r.bytes(),
        manifest_bytes(resources.push(r)).len() == manifest_bytes(resources).len() + r.disk_len(),
{
    assert(resources.push(r).drop_last() =~= resources);
    lemma_resource_bytes_len(r);
}

/// A walk that fails after fewer steps fails after more.
pub proof fn lemma_walk_failure_persists(body: Seq<u8>, start: int, k: nat, n: nat)
    requires
        k <= n,
        walked(body, start, k) is None,
    ensures
        walked(body, start, n) is None,
    decreases n,
{
    if k < n {
        lemma_walk_failure_persists(body, start, k, (n - 1) as nat);
    }
}

/// What a successful walk met is exactly what stands in the bytes that it
/// passed over: it yields as many resources as were asked for, all of them
/// storable, and the bytes from its start to its end are their manifest.
pub proof fn lemma_walk_is_exact(body: Seq<u8>, start: int, n: nat)
    requires
        0 <= start <= body.len(),
        walked(body, start, n) is Some,
    ensures
        ({
            let (resources, cursor) = walked(body, start, n).unwrap();
            &&& resources.len() == n
            &&& all_storable(resources)
            &&& start <= cursor <= body.len()
            &&& body.subrange(start, cursor) == manifest_bytes(resources)
        }),
    decreases n,
{
    if n > 0 {
        lemma_walk_is_exact(body, start, (n - 1) as nat);
        let (before, cursor) = walked(body, start, (n - 1) as nat).unwrap();
        let (r, used) = parsed_resource(body, cursor).unwrap();
        lemma_resource_parse_is_exact(body, cursor);
        lemma_manifest_bytes_push(before, r);
    }
}

/// Walking a manifest that stands behind `before` and in front of `after`
/// meets its resources one by one and ends right behind it.
pub proof fn lemma_walk_of_manifest(
    before: Seq<u8>,
    resources: Seq<ResourceView>,
    after: Seq<u8>,
    n: nat,
)
    requires
        all_storable(resources),
        n <= resources.len(),
    ensures
        walked(before + manifest_bytes(resources) + after, before.len() as int, n) == Some(
            (
                resources.take(n as int),
                (before.len() + manifest_bytes(resources.take(n as int)).len()) as int,
            ),
        ),
    decreases n,
{
    let body = before + manifest_bytes(resources) + after;
    if n > 0 {
        lemma_walk_of_manifest(before, resources, after, (n - 1) as nat);
        let met = resources.take(n - 1);
        let r = resources[n - 1];
        let rest = resources.skip(n as int);
        assert(resources =~= met.push(r) + rest);
        lemma_manifest_bytes_concat(met.push(r), rest);
        lemma_manifest_bytes_push(met, r);
        let front = before + manifest_bytes(met);
        let back = manifest_bytes(rest) + after;
        assert(body =~= front + r.bytes() + back);
        lemma_resource_round_trip(front, r, back);
    }
}

/// A container ends with its end marker: its last 20 bytes start with the
/// magic and parse to the marker that names the loader's length and the
/// number of resources.
pub proof fn lemma_container_ends_with_marker(loader: Seq<u8>, resources: Seq<ResourceView>)
    ensures
        ({
            let image = container_bytes(loader, resources);
            let tail = image.subrange(image.len() - END_MARKER_LEN, image.len() as int);
            &&& image.len() >= END_MARKER_LEN
            &&& tail == end_marker_bytes(marker_of(loader, resources))
            &&& tail.subrange(0, 4) == magic()
            &&& parsed_end_marker(tail) == Some(marker_of(loader, resources))
        }),
{
    lemma_end_marker_round_trip(marker_of(loader, resources));
}

/// The loader reads back what the packer wrote: a container whose loader
/// image and resource count fit 64 bits, and whose resources can be stored,
/// loads to its end marker and exactly its resources.
pub proof fn lemma_load_of_container(loader: Seq<u8>, resources: Seq<ResourceView>)
    requires
        loader.len() <= u64::MAX,
        resources.len() <= u64::MAX,
        all_storable(resources),
    ensures
        loaded(container_bytes(loader, resources)) == Some(
            (marker_of(loader, resources), resources),
        ),
{
    let image = container_bytes(loader, resources);
    lemma_container_ends_with_marker(loader, resources);
    let body = image.subrange(0, image.len() - END_MARKER_LEN);
    assert(body =~= loader + manifest_bytes(resources) + Seq::<u8>::empty());
    lemma_walk_of_manifest(loader, resources, Seq::empty(), resources.len());
    assert(resources.take(resources.len() as int) =~= resources);
}

/// Walking the manifest of a well-formed container yields exactly as many
/// resources as the end marker announces and consumes exactly the bytes
/// between the manifest's start and the end marker; the image is, byte for
/// byte, the container of what lies before the manifest and of the
/// resources met.
pub proof fn lemma_loaded_is_exact(image: Seq<u8>)
    requires
        loaded(image) is Some,
    ensures
        ({
            let (marker, resources) = loaded(image).unwrap();
            &&& resources.len() == marker.n_resources
            &&& all_storable(resources)
            &&& manifest_bytes(resources).len() == image.len() - END_MARKER_LEN
                - marker.manifest_start
            &&& image == container_bytes(
                image.subrange(0, marker.manifest_start as int),
                resources,
            )
        }),
{
    let (marker, _) = loaded(image).unwrap();
    let body_len = image.len() - END_MARKER_LEN;
    lemma_walk_is_exact(
        image.subrange(0, body_len),
        marker.manifest_start as int,
        marker.n_resources as nat,
    );
    lemma_end_marker_parse_is_exact(image.subrange(body_len, image.len() as int));
}

/// Whether `resources` are encodings of `guests`, one for one and in order.
pub open spec fn holds_guests(resources: Seq<ResourceView>, guests: Seq<Vec<u8>>) -> bool {
    &&& resources.len() == guests.len()
    &&& forall|i: int|
        0 <= i < resources.len() ==> decoded((#[trigger] resources[i]).key, resources[i].data)
            == Ok::<Seq<u8>, CodecError>(guests[i]@)
}

/// Whether every guest of the sequence can be framed.
pub open spec fn all_frameable(guests: Seq<Vec<u8>>) -> bool {
    forall|i: int| 0 <= i < guests.len() ==> frameable((#[trigger] guests[i])@.len())
}

/// Add a new guest binary to the output: the guest is encoded under a fresh
/// key and the serialized resource is appended to `out`. Returns the number
/// of bytes that were appended.
///
/// Fails with `GuestTooLarge` exactly where the guest cannot be framed.
/// Else it fails only with `NoEntropy`, where no key could be drawn, or with
/// `UnreadableFrame`, which no guest meets whose frame is sure to be shorter
/// than the longest run allowed. Where it fails, `out` is unchanged.
pub fn add_guest(out: &mut Vec<u8>, guest: &[u8]) -> (r: Result<usize, EncodeError>)
    ensures
        match r {
            Ok(written) => {
                &&& frameable(guest@.len())
                &&& exists|res: ResourceView|
                    #![trigger res.bytes()]
                    {
                        &&& res.storable()
                        &&& decoded(res.key, res.data) == Ok::<Seq<u8>, CodecError>(guest@)
                        &&& final(out)@ == old(out)@ + res.bytes()
                        &&& written == res.disk_len()
                    }
            },
            Err(e) => {
                &&& final(out)@ == old(out)@
                &&& if !frameable(guest@.len()) {
                    e == EncodeError::GuestTooLarge
                } else {
                    ||| e == EncodeError::NoEntropy
                    ||| e == EncodeError::UnreadableFrame && max_frame_len(guest@.len())
                        >= MAX_FF_RUN
                }
            },
        },
{
    let resource = match TardisResource::compress(guest) {
        Ok(resource) => resource,
        Err(e) => {
            return Err(e);
        },
    };
    let resource_bytes = resource.to_bytes();
    out.extend_from_slice(resource_bytes.as_slice());
    assert(out@ == old(out)@ + resource@.bytes());
    Ok(resource_bytes.len())
}

/// Builds the container of `guests` behind the loader image `loader`: the
/// loader, one resource per guest in the order given, and the end marker.
///
/// Succeeds only where every guest can be framed, and fails with
/// `GuestTooLarge` only where some guest cannot; a first guest that cannot
/// be framed gives `GuestTooLarge`. Else it fails only with `NoEntropy`,
/// where no key could be drawn, or with `UnreadableFrame`, which needs a
/// guest whose frame may be as long as the longest run allowed. A container
/// without guests is always built. Whatever keys were drawn, the result is
/// the container of resources that decode to the guests, its last 20 bytes
/// start with the magic, and the loader's walk over it yields exactly those
/// resources.
pub fn pack(loader: &[u8], guests: &Vec<Vec<u8>>) -> (r: Result<Vec<u8>, EncodeError>)
    ensures
        match r {
            Ok(image) => {
                &&& all_frameable(guests@)
                &&& exists|resources: Seq<ResourceView>|
                    #![trigger container_bytes(loader@, resources)]
                    {
                        &&& image@ == container_bytes(loader@, resources)
                        &&& all_storable(resources)
                        &&& holds_guests(resources, guests@)
                        &&& loaded(image@) == Some((marker_of(loader@, resources), resources))
                    }
                &&& image@.len() >= loader@.len() + END_MARKER_LEN
                &&& image@.subrange(image@.len() - 20, image@.len() - 16) == magic()
            },
            Err(e) => {
                &&& guests@.len() > 0
                &&& {
                    ||| e == EncodeError::NoEntropy
                    ||| e == EncodeError::GuestTooLarge && !all_frameable(guests@)
                    ||| e == EncodeError::UnreadableFrame && exists|i: int|
                        0 <= i < guests@.len() && max_frame_len((#[trigger] guests@[i])@.len())
                            >= MAX_FF_RUN
                }
            },
        },
        guests@.len() > 0 && !frameable(guests@[0]@.len()) ==> r == Err::<Vec<u8>, EncodeError>(
            EncodeError::GuestTooLarge,
        ),
{
    let mut out: Vec<u8> = Vec::new();
    out.extend_from_slice(loader);
    let ghost mut resources: Seq<ResourceView> = Seq::empty();
    let mut i: usize = 0;
    while i < guests.len()
        invariant
            i <= guests@.len(),
            resources.len() == i,
            all_storable(resources),
            all_frameable(guests@.take(i as int)),
            holds_guests(resources, guests@.take(i as int)),
            out@ == loader@ + manifest_bytes(resources),
        decreases guests@.len() - i,
    {
        let ghost before = out@;
        match add_guest(&mut out, guests[i].as_slice()) {
            Ok(_) => {
                proof {
                    let res = choose|res: ResourceView|
                        #![trigger res.bytes()]
                        {
                            &&& res.storable()
                            &&& decoded(res.key, res.data) == Ok::<Seq<u8>, CodecError>(
                                guests@[i as int]@,
                            )
                            &&& out@ == before + res.bytes()
                        };
                    lemma_manifest_bytes_push(resources, res);
                    resources = resources.push(res);
                    assert forall|j: int| 0 <= j <= i implies frameable(
                        (#[trigger] guests@.take(i + 1)[j])@.len(),
                    ) by {
                        if j < i {
                            assert(guests@.take(i + 1)[j] == guests@.take(i as int)[j]);
                        }
                    }
                }
            },
            Err(e) => {
                assert(!frameable(guests@[i as int]@.len()) ==> !all_frameable(guests@));
                assert(i > 0 ==> guests@.take(i as int)[0] == guests@[0]);
                return Err(e);
            },
        }
        i = i + 1;
    }
    let marker = EndMarker { manifest_start: loader.len() as u64, n_resources: guests.len() as u64 };
    let marker_bytes = marker.to_bytes();
    out.extend_from_slice(marker_bytes.as_slice());
    proof {
        assert(guests@.take(i as int) =~= guests@);
        assert(out@ =~= container_bytes(loader@, resources));
        lemma_load_of_container(loader@, resources);
    }
    Ok(out)
}

/// Whether the last 20 bytes of `image` are an end marker: whether the file
/// claims to be a container at all.
pub fn carries_manifest(image: &[u8]) -> (found: bool)
    ensures
        found == (image@.len() >= END_MARKER_LEN && parsed_end_marker(
            image@.subrange(image@.len() - END_MARKER_LEN, image@.len() as int),
        ) is Some),
{
    let total: usize = image.len();
    if total < 20 {
        return false;
    }
    match EndMarker::from_bytes(slice_subrange(image, total - 20, total)) {
        Ok(_) => true,
        Err(_) => false,
    }
}

/// Finds the end marker in the last 20 bytes of `image` and walks the
/// manifest from the offset that it gives.
///
/// Returns the end marker and the resources in the order in which they
/// stand in the manifest. Fails with `ContainerMalformed` where `image` is
/// no well-formed container: see [`loaded`].
pub fn walk_manifest(image: &[u8]) -> (r: Result<(EndMarker, Vec<TardisResource>), TardisError>)
    ensures
        match r {
            Ok((marker, resources)) => loaded(image@) == Some((marker, views(resources@))),
            Err(e) => e == TardisError::ContainerMalformed && loaded(image@) is None,
        },
{
    let total: usize = image.len();
    if total < 20 {
        return Err(TardisError::ContainerMalformed);
    }
    let body_len: usize = total - 20;
    let marker = match EndMarker::from_bytes(slice_subrange(image, body_len, total)) {
        Ok(marker) => marker,
        Err(_) => {
            return Err(TardisError::ContainerMalformed);
        },
    };
    if marker.manifest_start > body_len as u64 {
        return Err(TardisError::ContainerMalformed);
    }
    let body = slice_subrange(image, 0, body_len);
    let ghost start = marker.manifest_start as int;
    let mut cursor: usize = marker.manifest_start as usize;
    let mut resources: Vec<TardisResource> = Vec::new();
    let mut i: u64 = 0;
    while i < marker.n_resources
        invariant
            i <= marker.n_resources,
            image@.len() == body_len + END_MARKER_LEN,
            parsed_end_marker(image@.subrange(body_len as int, image@.len() as int)) == Some(
                marker,
            ),
            start == marker.manifest_start,
            body@ == image@.subrange(0, body_len as int),
            body@.len() == body_len,
            0 <= start <= cursor <= body_len,
            walked(body@, start, i as nat) == Some((views(resources@), cursor as int)),
        decreases marker.n_resources - i,
    {
        match TardisResource::from_bytes(body, cursor) {
            Ok((resource, used)) => {
                resources.push(resource);
                cursor = cursor + used;
            },
            Err(_) => {
                proof {
                    lemma_walk_failure_persists(
                        body@,
                        start,
                        (i + 1) as nat,
                        marker.n_resources as nat,
                    );
                }
                return Err(TardisError::ContainerMalformed);
            },
        }
        i = i + 1;
    }
    if cursor != body_len {
        return Err(TardisError::ContainerMalformed);
    }
    Ok((marker, resources))
}

} // verus!
