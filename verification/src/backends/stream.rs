//! A blob of a storage backend as a stream of chunks.

use crate::backends::steps::{keep_reply, translate_err, translated};
use crate::error::{BlobStoreError, ErrorView};
use crate::outside::{
    backend_not_found, bytes_from_slice, bytes_view, io_unexpected_eof, is_unexpected_eof,
};
use bytes::Bytes;
use vstd::prelude::*;

verus! {

/// How many bytes the buffers of a stream hold, and its chunks at most.
pub const STREAM_BUFFER_LEN: usize = 16384;

/// What came of a try to read into a buffer.
#[derive(Debug)]
pub enum Polled {
    /// Nothing is there yet.
    Pending,
    /// So many bytes were put at the start of the buffer.
    Read(usize),
    /// The read failed.
    Failed(std::io::Error),
}

/// What a stream gives out.
#[derive(Debug)]
pub enum StreamItem {
    /// Nothing is there yet.
    Pending,
    /// The next chunk.
    Chunk(Bytes),
    /// An error in place of a chunk.
    Failed(std::io::Error),
    /// Nothing more will come.
    End,
}

/// A [`StreamItem`], with the bytes of its chunk.
pub enum ItemView {
    Pending,
    Chunk(Seq<u8>),
    Failed(std::io::Error),
    End,
}

impl View for StreamItem {
    type V = ItemView;

    open spec fn view(&self) -> ItemView {
        match *self {
            StreamItem::Pending => ItemView::Pending,
            StreamItem::Chunk(bytes) => ItemView::Chunk(bytes_view(bytes)),
            StreamItem::Failed(err) => ItemView::Failed(err),
            StreamItem::End => ItemView::End,
        }
    }
}

/// What a stream gives out after `polled` came of a try to read into a buffer
/// that then held `buffer`: the bytes that were read, the end if there were
/// none or the source ended too early, or else the error.
pub open spec fn item_of(buffer: Seq<u8>, polled: Polled) -> ItemView {
    match polled {
        Polled::Pending => ItemView::Pending,
        Polled::Read(n) => if n == 0 {
            ItemView::End
        } else {
            ItemView::Chunk(buffer.take(n as int))
        },
        Polled::Failed(err) => if io_unexpected_eof(err) {
            ItemView::End
        } else {
            ItemView::Failed(err)
        },
    }
}

/// Goes on after a reader was asked for on the path of a blob: with the reader,
/// or else with what the error means.
pub fn stream_opened<T>(reply: Result<T, opendal::Error>) -> (opened: Result<T, BlobStoreError>)
    ensures
        match reply {
            Ok(reader) => opened == Ok::<T, BlobStoreError>(reader),
            Err(err) => opened matches Err(told) && told@ == translated(err) && if backend_not_found(
                err,
            ) {
                told is BlobNotFound
            } else {
                told == BlobStoreError::Backend(err)
            },
        },
{
    match reply {
        Ok(reader) => Ok(reader),
        Err(err) => Err(translate_err(err)),
    }
}

/// Goes on after the reader was asked for its bytes: with their source, or else
/// with the error as it is, even if it says that there is nothing at the path.
pub fn stream_started<T>(reply: Result<T, opendal::Error>) -> (started: Result<T, BlobStoreError>)
    ensures
        match reply {
            Ok(source) => started == Ok::<T, BlobStoreError>(source),
            Err(err) => started matches Err(told) && told@ == ErrorView::Backend(err) && told
                == BlobStoreError::Backend(err),
        },
{
    keep_reply(reply)
}

/// Gives out the item that comes of a try to read into `buffer`.
pub fn stream_item(buffer: &[u8], polled: Polled) -> (item: StreamItem)
    requires
        buffer@.len() <= STREAM_BUFFER_LEN,
        polled matches Polled::Read(n) ==> n <= buffer@.len(),
    ensures
        item@ == item_of(buffer@, polled),
        item@ matches ItemView::Chunk(chunk) ==> 0 < chunk.len() <= STREAM_BUFFER_LEN,
        match polled {
            Polled::Pending => item is Pending,
            Polled::Read(n) => if n == 0 {
                item is End
            } else {
                item matches StreamItem::Chunk(bytes) && bytes_view(bytes) == buffer@.take(n as int)
            },
            Polled::Failed(err) => if io_unexpected_eof(err) {
                item is End
            } else {
                item == StreamItem::Failed(err)
            },
        },
{
    match polled {
        Polled::Pending => StreamItem::Pending,
        Polled::Read(n) => if n == 0 {
            StreamItem::End
        } else {
            let chunk = vstd::slice::slice_subrange(buffer, 0, n);
            assert(chunk@ =~= buffer@.take(n as int));
            StreamItem::Chunk(bytes_from_slice(chunk))
        },
        Polled::Failed(err) => if is_unexpected_eof(&err) {
            StreamItem::End
        } else {
            StreamItem::Failed(err)
        },
    }
}

/// The bytes that a stream gives out before its first end or error.
pub open spec fn streamed(items: Seq<ItemView>) -> Seq<u8>
    decreases items.len(),
{
    if items.len() == 0 {
        Seq::empty()
    } else {
        match items[0] {
            ItemView::Pending => streamed(items.skip(1)),
            ItemView::Chunk(bytes) => bytes + streamed(items.skip(1)),
            ItemView::Failed(_) => Seq::empty(),
            ItemView::End => Seq::empty(),
        }
    }
}

/// The items of a stream whose reads went as `polls` tells: what each buffer
/// then held, and what came of the try.
pub open spec fn items_of(polls: Seq<(Seq<u8>, Polled)>) -> Seq<ItemView> {
    Seq::new(polls.len(), |i: int| item_of(polls[i].0, polls[i].1))
}

/// The bytes that reads put into their buffers, one after the other.
pub open spec fn delivered(polls: Seq<(Seq<u8>, Polled)>) -> Seq<u8>
    decreases polls.len(),
{
    if polls.len() == 0 {
        Seq::empty()
    } else {
        match polls[0].1 {
            Polled::Read(n) => polls[0].0.take(n as int) + delivered(polls.skip(1)),
            _ => delivered(polls.skip(1)),
        }
    }
}

/// Whether a try to read brought bytes, or found that nothing is there yet.
pub open spec fn brings_on(poll: (Seq<u8>, Polled)) -> bool {
    poll.1 is Pending || (poll.1 matches Polled::Read(n) && 0 < n <= poll.0.len())
}

/// Whether a try to read found the end of the source, be it too early.
pub open spec fn ends(poll: (Seq<u8>, Polled)) -> bool {
    (poll.1 matches Polled::Read(n) && n == 0) || (poll.1 matches Polled::Failed(err)
        && io_unexpected_eof(err))
}

/// A stream gives out what is read, no byte added, lost or moved: as long as no
/// read fails and none comes back empty, the chunks together are the bytes that
/// the reads delivered, whatever their sizes and however often the source was
/// not ready.
pub proof fn stream_gives_what_is_read(polls: Seq<(Seq<u8>, Polled)>)
    requires
        forall|i: int| 0 <= i < polls.len() ==> brings_on(#[trigger] polls[i]),
    ensures
        streamed(items_of(polls)) == delivered(polls),
    decreases polls.len(),
{
    if polls.len() > 0 {
        let rest = polls.skip(1);
        assert forall|i: int| 0 <= i < rest.len() implies brings_on(#[trigger] rest[i]) by {
            assert(rest[i] == polls[i + 1]);
        }
        stream_gives_what_is_read(rest);
        assert(items_of(polls).skip(1) =~= items_of(rest));
        assert(items_of(polls)[0] == item_of(polls[0].0, polls[0].1));
    }
}

/// The buffers of a stream hold 16 KiB.
pub proof fn buffers_hold_sixteen_kib()
    ensures
        STREAM_BUFFER_LEN == 16 * 1024,
{
}

/// Chunks that come one after the other are given out one after the other, each
/// of them whole, and what comes after an end or an error is not.
pub proof fn chunks_are_given_out_in_order(chunks: Seq<Seq<u8>>, more: Seq<ItemView>)
    ensures
        streamed(chunks.map_values(|chunk: Seq<u8>| ItemView::Chunk(chunk))) == chunks.flatten(),
        more.len() > 0 && (more[0] is End || more[0] is Failed) ==> streamed(
            chunks.map_values(|chunk: Seq<u8>| ItemView::Chunk(chunk)) + more,
        ) == chunks.flatten(),
    decreases chunks.len(),
{
    let items = chunks.map_values(|chunk: Seq<u8>| ItemView::Chunk(chunk));
    if chunks.len() == 0 {
        assert(items + more =~= more);
        assert(chunks.flatten() =~= Seq::empty());
    } else {
        let rest = chunks.drop_first();
        chunks_are_given_out_in_order(rest, more);
        let others = rest.map_values(|chunk: Seq<u8>| ItemView::Chunk(chunk));
        assert(items.skip(1) =~= others);
        assert((items + more).skip(1) =~= others + more);
        assert((items + more)[0] == ItemView::Chunk(chunks[0]));
    }
}

/// No chunk of a stream is empty, and none holds more than a buffer does.
pub proof fn chunks_are_bounded(polls: Seq<(Seq<u8>, Polled)>, i: int)
    requires
        0 <= i < polls.len(),
        polls[i].0.len() <= STREAM_BUFFER_LEN,
        polls[i].1 matches Polled::Read(n) ==> n <= polls[i].0.len(),
    ensures
        items_of(polls)[i] matches ItemView::Chunk(chunk) ==> 0 < chunk.len() <= STREAM_BUFFER_LEN,
{
}

/// An empty read ends the stream, and so does a source that ends too early:
/// what the stream gave out before is all that it gives out.
pub proof fn stream_ends(
    polls: Seq<(Seq<u8>, Polled)>,
    last: (Seq<u8>, Polled),
    more: Seq<(Seq<u8>, Polled)>,
)
    requires
        ends(last),
    ensures
        streamed(items_of(polls + seq![last] + more)) == streamed(items_of(polls)),
    decreases polls.len(),
{
    let all = polls + seq![last] + more;
    assert(all[0] == if polls.len() > 0 { polls[0] } else { last });
    assert(items_of(all)[0] == item_of(all[0].0, all[0].1));
    if polls.len() > 0 {
        stream_ends(polls.skip(1), last, more);
        assert(all.skip(1) =~= polls.skip(1) + seq![last] + more);
        assert(items_of(all).skip(1) =~= items_of(all.skip(1)));
        assert(items_of(polls).skip(1) =~= items_of(polls.skip(1)));
        assert(items_of(polls)[0] == item_of(polls[0].0, polls[0].1));
    }
}

} // verus!
