//! Tagged message payloads and batches of video frames.
//!
//! A batch keeps its frames keyed by an integer identifier, with each key
//! held at most once, and can move them to and from an offline store for
//! persistence.

use vstd::prelude::*;

verus! {

/// The plain identifying values of one video frame.
#[derive(Clone, Copy, Debug, PartialEq, Eq, Structural)]
pub struct VideoFrame {
    pub pts: i64,
    pub width: i64,
    pub height: i64,
}

/// The end-of-stream marker with the source it closes.
#[derive(Clone, Debug)]
pub struct EndOfStream {
    pub source_id: String,
}

impl EndOfStream {
    /// A marker closing the given source.
    pub fn new(source_id: String) -> (r: EndOfStream)
        ensures
            r.source_id == source_id,
    {
        EndOfStream { source_id }
    }
}

/// The value a frame store associates with `id`: the payload of the last
/// entry carrying that key.
pub open spec fn lookup(s: Seq<(i64, VideoFrame)>, id: int) -> Option<VideoFrame>
    decreases s.len(),
{
    if s.len() == 0 {
        None
    } else if s.last().0 == id {
        Some(s.last().1)
    } else {
        lookup(s.drop_last(), id)
    }
}

/// Whether every key appears at most once.
pub open spec fn unique_keys(s: Seq<(i64, VideoFrame)>) -> bool {
    forall|i: int, j: int| 0 <= i < j < s.len() ==> (#[trigger] s[i]).0 != (#[trigger] s[j]).0
}

/// Appending an entry changes the association at its key alone.
pub proof fn lemma_lookup_push(s: Seq<(i64, VideoFrame)>, e: (i64, VideoFrame), x: int)
    ensures
        lookup(s.push(e), x) == if e.0 == x {
            Some(e.1)
        } else {
            lookup(s, x)
        },
{
    assert(s.push(e).drop_last() =~= s);
    assert(s.push(e).last() == e);
}

/// A key is absent exactly when no entry carries it.
pub proof fn lemma_lookup_none(s: Seq<(i64, VideoFrame)>, x: int)
    ensures
        (lookup(s, x) is None) <==> (forall|j: int| 0 <= j < s.len() ==> (#[trigger] s[j]).0 != x),
    decreases s.len(),
{
    if s.len() > 0 {
        lemma_lookup_none(s.drop_last(), x);
        assert(forall|j: int|
            0 <= j < s.len() - 1 ==> (#[trigger] s[j]) == s.drop_last()[j]);
    }
}

/// Under unique keys, an entry found at any index decides the association.
pub proof fn lemma_lookup_found(s: Seq<(i64, VideoFrame)>, j: int)
    requires
        unique_keys(s),
        0 <= j < s.len(),
    ensures
        lookup(s, s[j].0 as int) == Some(s[j].1),
    decreases s.len(),
{
    if j == s.len() - 1 {
        assert(s.last() == s[j]);
    } else {
        assert(s.last().0 != s[j].0);
        assert(unique_keys(s.drop_last())) by {
            assert(forall|a: int, b: int|
                0 <= a < b < s.len() - 1 ==> (#[trigger] s.drop_last()[a]) == s[a]
                    && (#[trigger] s.drop_last()[b]) == s[b]);
        }
        assert(s.drop_last()[j] == s[j]);
        lemma_lookup_found(s.drop_last(), j);
    }
}

/// Removing the entry at `i` clears its key and keeps every other
/// association, and keeps the keys unique.
pub proof fn lemma_lookup_remove(s: Seq<(i64, VideoFrame)>, i: int, x: int)
    requires
        unique_keys(s),
        0 <= i < s.len(),
    ensures
        lookup(s.remove(i), x) == if x == s[i].0 {
            None::<VideoFrame>
        } else {
            lookup(s, x)
        },
        unique_keys(s.remove(i)),
    decreases s.len(),
{
    s.remove_ensures(i);
    assert(unique_keys(s.remove(i))) by {
        assert forall|a: int, b: int|
            0 <= a < b < s.remove(i).len() implies (#[trigger] s.remove(i)[a]).0 != (
        #[trigger] s.remove(i)[b]).0 by {
            let aa = if a < i {
                a
            } else {
                a + 1
            };
            let bb = if b < i {
                b
            } else {
                b + 1
            };
            assert(s.remove(i)[a] == s[aa] && s.remove(i)[b] == s[bb]);
        }
    }
    if i == s.len() - 1 {
        assert(s.remove(i) =~= s.drop_last());
        if x == s[i].0 {
            lemma_lookup_none(s.drop_last(), x);
            assert(forall|j: int|
                0 <= j < s.len() - 1 ==> (#[trigger] s.drop_last()[j]) == s[j]);
            assert(forall|j: int| 0 <= j < s.len() - 1 ==> (#[trigger] s[j]).0 != s[i].0);
            assert(lookup(s.drop_last(), x) is None);
        }
    } else {
        let s2 = s.remove(i);
        assert(s2.last() == s[s.len() - 1]);
        assert(s2.drop_last() =~= s.drop_last().remove(i));
        assert(unique_keys(s.drop_last())) by {
            assert(forall|a: int, b: int|
                0 <= a < b < s.len() - 1 ==> (#[trigger] s.drop_last()[a]) == s[a]
                    && (#[trigger] s.drop_last()[b]) == s[b]);
        }
        assert(s.drop_last()[i] == s[i]);
        lemma_lookup_remove(s.drop_last(), i, x);
        assert(s.last() == s[s.len() - 1]);
        if s2.last().0 == x {
            assert(x != s[i].0);
        }
    }
}

/// A batch of video frames keyed by an integer identifier, together with
/// an offline store filled by `snapshot` and drained by `restore`.
#[derive(Debug, Clone)]
pub struct VideoFrameBatch {
    pub frames: Vec<(i64, VideoFrame)>,
    pub offline_frames: Vec<(i64, VideoFrame)>,
}

impl VideoFrameBatch {
    /// Both stores hold each key at most once.
    pub open spec fn wf(self) -> bool {
        &&& unique_keys(self.frames@)
        &&& unique_keys(self.offline_frames@)
    }

    /// An empty batch.
    pub fn new() -> (r: VideoFrameBatch)
        ensures
            r.frames@.len() == 0,
            r.offline_frames@.len() == 0,
            r.wf(),
    {
        VideoFrameBatch { frames: Vec::new(), offline_frames: Vec::new() }
    }

    /// Files `frame` under `id`, replacing any frame that key held.
    pub fn add(&mut self, id: i64, frame: VideoFrame)
        requires
            old(self).wf(),
        ensures
            final(self).wf(),
            forall|x: int|
                lookup(final(self).frames@, x) == if x == id {
                    Some(frame)
                } else {
                    lookup(old(self).frames@, x)
                },
            final(self).offline_frames == old(self).offline_frames,
    {
        let _ = self.del(id);
        let ghost mid = self.frames@;
        proof {
            lemma_lookup_none(mid, id as int);
        }
        self.frames.push((id, frame));
        proof {
            assert(self.frames@ == mid.push((id, frame)));
            assert forall|x: int|
                lookup(self.frames@, x) == (if x == id {
                    Some(frame)
                } else {
                    lookup(old(self).frames@, x)
                }) by {
                lemma_lookup_push(mid, (id, frame), x);
                assert(lookup(mid, x) == (if x == id {
                    None::<VideoFrame>
                } else {
                    lookup(old(self).frames@, x)
                }));
            }
            assert(unique_keys(self.frames@)) by {
                assert(forall|j: int| 0 <= j < mid.len() ==> (#[trigger] mid[j]).0 != id);
                assert(forall|a: int, b: int|
                    0 <= a < b < self.frames@.len() ==> (#[trigger] self.frames@[a]).0 != (
                    #[trigger] self.frames@[b]).0);
            }
        }
    }

    /// The frame filed under `id`, if any.
    pub fn get(&self, id: i64) -> (r: Option<VideoFrame>)
        requires
            self.wf(),
        ensures
            r == lookup(self.frames@, id as int),
    {
        let n = self.frames.len();
        for j in 0..n
            invariant
                n == self.frames@.len(),
                self.wf(),
                forall|jj: int| 0 <= jj < j ==> (#[trigger] self.frames@[jj]).0 != id,
        {
            if self.frames[j].0 == id {
                proof {
                    lemma_lookup_found(self.frames@, j as int);
                }
                return Some(self.frames[j].1);
            }
        }
        proof {
            lemma_lookup_none(self.frames@, id as int);
        }
        None
    }

    /// Removes and returns the frame filed under `id`, if any.
    pub fn del(&mut self, id: i64) -> (r: Option<VideoFrame>)
        requires
            old(self).wf(),
        ensures
            final(self).wf(),
            r == lookup(old(self).frames@, id as int),
            forall|x: int|
                lookup(final(self).frames@, x) == if x == id {
                    None::<VideoFrame>
                } else {
                    lookup(old(self).frames@, x)
                },
            final(self).offline_frames == old(self).offline_frames,
    {
        let n = self.frames.len();
        for j in 0..n
            invariant
                n == self.frames@.len(),
                self == old(self),
                old(self).wf(),
                forall|jj: int| 0 <= jj < j ==> (#[trigger] self.frames@[jj]).0 != id,
        {
            if self.frames[j].0 == id {
                let found = self.frames[j].1;
                proof {
                    lemma_lookup_found(self.frames@, j as int);
                }
                self.frames.remove(j);
                proof {
                    assert forall|x: int|
                        lookup(self.frames@, x) == (if x == id {
                            None::<VideoFrame>
                        } else {
                            lookup(old(self).frames@, x)
                        }) by {
                        lemma_lookup_remove(old(self).frames@, j as int, x);
                    }
                    lemma_lookup_remove(old(self).frames@, j as int, id as int);
                }
                return Some(found);
            }
        }
        proof {
            lemma_lookup_none(self.frames@, id as int);
        }
        None
    }

    /// An element-for-element copy of this batch.
    pub fn duplicate(&self) -> (r: VideoFrameBatch)
        ensures
            r.frames@ == self.frames@,
            r.offline_frames@ == self.offline_frames@,
    {
        VideoFrameBatch {
            frames: copy_pairs(&self.frames),
            offline_frames: copy_pairs(&self.offline_frames),
        }
    }

    /// Fills the offline store with a copy of every frame in the batch.
    pub fn snapshot(&mut self)
        requires
            old(self).wf(),
        ensures
            final(self).wf(),
            final(self).frames == old(self).frames,
            final(self).offline_frames@ == old(self).frames@,
    {
        let copy = copy_pairs(&self.frames);
        self.offline_frames = copy;
    }

    /// Moves every offline frame back into the batch, replacing any frame
    /// filed under the same identifier, and empties the offline store.
    pub fn restore(&mut self)
        requires
            old(self).wf(),
        ensures
            final(self).wf(),
            final(self).offline_frames@.len() == 0,
            forall|x: int|
                lookup(final(self).frames@, x) == match lookup(old(self).offline_frames@, x) {
                    Some(f) => Some(f),
                    None => lookup(old(self).frames@, x),
                },
    {
        let n = self.offline_frames.len();
        for i in 0..n
            invariant
                n == self.offline_frames@.len(),
                self.offline_frames == old(self).offline_frames,
                unique_keys(self.frames@),
                unique_keys(self.offline_frames@),
                forall|x: int|
                    lookup(self.frames@, x) == match lookup(
                        old(self).offline_frames@.take(i as int),
                        x,
                    ) {
                        Some(f) => Some(f),
                        None => lookup(old(self).frames@, x),
                    },
        {
            let (id, frame) = self.offline_frames[i];
            let ghost before = self.frames@;
            let _ = self.del(id);
            let ghost mid = self.frames@;
            proof {
                lemma_lookup_none(mid, id as int);
            }
            self.frames.push((id, frame));
            proof {
                let taken = old(self).offline_frames@.take(i as int);
                let taken1 = old(self).offline_frames@.take(i + 1 as int);
                assert(taken1 =~= taken.push((id, frame)));
                assert(self.frames@ == mid.push((id, frame)));
                assert forall|x: int|
                    lookup(self.frames@, x) == (match lookup(taken1, x) {
                        Some(f) => Some(f),
                        None => lookup(old(self).frames@, x),
                    }) by {
                    lemma_lookup_push(mid, (id, frame), x);
                    assert(lookup(mid, x) == (if x == id {
                        None::<VideoFrame>
                    } else {
                        lookup(before, x)
                    }));
                    assert(lookup(before, x) == (match lookup(taken, x) {
                        Some(f) => Some(f),
                        None => lookup(old(self).frames@, x),
                    }));
                    lemma_lookup_push(taken, (id, frame), x);
                }
                assert(unique_keys(self.frames@)) by {
                    assert(forall|j: int| 0 <= j < mid.len() ==> (#[trigger] mid[j]).0 != id);
                    assert(forall|a: int, b: int|
                        0 <= a < b < self.frames@.len() ==> (#[trigger] self.frames@[a]).0 != (
                        #[trigger] self.frames@[b]).0);
                }
            }
        }
        proof {
            assert(old(self).offline_frames@.take(n as int) =~= old(self).offline_frames@);
        }
        self.offline_frames.clear();
    }
}

/// An element-for-element copy of a key-to-frame list.
fn copy_pairs(v: &Vec<(i64, VideoFrame)>) -> (r: Vec<(i64, VideoFrame)>)
    ensures
        r@ == v@,
{
    let mut r: Vec<(i64, VideoFrame)> = Vec::new();
    let n = v.len();
    for i in 0..n
        invariant
            n == v@.len(),
            r@ == v@.take(i as int),
    {
        r.push(v[i]);
        proof {
            assert(v@.take(i + 1 as int) =~= v@.take(i as int).push(v@[i as int]));
        }
    }
    proof {
        assert(v@.take(n as int) =~= v@);
    }
    r
}

/// The payload a message carries.
#[derive(Debug, Clone)]
pub enum NativeMessage {
    EndOfStream(EndOfStream),
    VideoFrame(VideoFrame),
    VideoFrameBatch(VideoFrameBatch),
    Unknown(String),
}

/// A tagged message: exactly one of the four payload kinds.
#[derive(Debug, Clone)]
pub struct Message {
    pub payload: NativeMessage,
}

impl Message {
    /// A message of Unknown type carrying the given text.
    pub fn unknown(s: String) -> (r: Message)
        ensures
            r.payload == NativeMessage::Unknown(s),
    {
        Message { payload: NativeMessage::Unknown(s) }
    }

    /// A message carrying one video frame.
    pub fn video_frame(frame: VideoFrame) -> (r: Message)
        ensures
            r.payload == NativeMessage::VideoFrame(frame),
    {
        Message { payload: NativeMessage::VideoFrame(frame) }
    }

    /// A message carrying a batch of video frames.
    pub fn video_frame_batch(batch: VideoFrameBatch) -> (r: Message)
        ensures
            r.payload == NativeMessage::VideoFrameBatch(batch),
    {
        Message { payload: NativeMessage::VideoFrameBatch(batch) }
    }

    /// A message closing a stream.
    pub fn end_of_stream(eos: EndOfStream) -> (r: Message)
        ensures
            r.payload == NativeMessage::EndOfStream(eos),
    {
        Message { payload: NativeMessage::EndOfStream(eos) }
    }

    /// Whether the message is of Unknown type.
    pub fn is_unknown(&self) -> (r: bool)
        ensures
            r == (self.payload matches NativeMessage::Unknown(_)),
    {
        matches!(self.payload, NativeMessage::Unknown(_))
    }

    /// Whether the message is of EndOfStream type.
    pub fn is_end_of_stream(&self) -> (r: bool)
        ensures
            r == (self.payload matches NativeMessage::EndOfStream(_)),
    {
        matches!(self.payload, NativeMessage::EndOfStream(_))
    }

    /// Whether the message is of VideoFrame type.
    pub fn is_video_frame(&self) -> (r: bool)
        ensures
            r == (self.payload matches NativeMessage::VideoFrame(_)),
    {
        matches!(self.payload, NativeMessage::VideoFrame(_))
    }

    /// Whether the message is of VideoFrameBatch type.
    pub fn is_video_frame_batch(&self) -> (r: bool)
        ensures
            r == (self.payload matches NativeMessage::VideoFrameBatch(_)),
    {
        matches!(self.payload, NativeMessage::VideoFrameBatch(_))
    }

    /// The message's text when it is of Unknown type, `None` otherwise.
    pub fn as_unknown(&self) -> (r: Option<String>)
        ensures
            r == match self.payload {
                NativeMessage::Unknown(s) => Some(s),
                _ => None::<String>,
            },
    {
        match &self.payload {
            NativeMessage::Unknown(s) => Some(s.clone()),
            _ => None,
        }
    }

    /// The message's end-of-stream marker when it carries one.
    pub fn as_end_of_stream(&self) -> (r: Option<EndOfStream>)
        ensures
            r matches Some(e) <==> self.payload matches NativeMessage::EndOfStream(_),
            self.payload matches NativeMessage::EndOfStream(e) ==> r == Some(e),
    {
        match &self.payload {
            NativeMessage::EndOfStream(eos) => Some(
                EndOfStream { source_id: eos.source_id.clone() },
            ),
            _ => None,
        }
    }

    /// The message's video frame when it carries one.
    pub fn as_video_frame(&self) -> (r: Option<VideoFrame>)
        ensures
            r == match self.payload {
                NativeMessage::VideoFrame(f) => Some(f),
                _ => None::<VideoFrame>,
            },
    {
        match &self.payload {
            NativeMessage::VideoFrame(f) => Some(*f),
            _ => None,
        }
    }

    /// The message's batch when it carries one, as an element-for-element
    /// copy.
    pub fn as_video_frame_batch(&self) -> (r: Option<VideoFrameBatch>)
        ensures
            r matches Some(b) <==> self.payload matches NativeMessage::VideoFrameBatch(_),
            self.payload matches NativeMessage::VideoFrameBatch(b) ==> r matches Some(rb)
                && rb.frames@ == b.frames@ && rb.offline_frames@ == b.offline_frames@,
    {
        match &self.payload {
            NativeMessage::VideoFrameBatch(b) => Some(b.duplicate()),
            _ => None,
        }
    }
}

} // verus!
