//! The pipe ffmpeg writes its frames down. It carries no framing: frames of
//! raw pixels follow one another with nothing in between, and where one ends
//! is known only from their size. What a read gives back need not end where a
//! frame does, so what was read is kept until it makes one.

use vstd::prelude::*;

use crate::{frame_bytes, spec_frame_bytes};

verus! {

/// What to do after a read.
#[derive(Debug, PartialEq)]
pub enum Relay {
    /// Read again: the frame is not whole yet.
    More,
    /// Hand this frame over, then read again.
    Hand(Vec<u8>),
    /// Stop: the stream has ended. What there was of another frame goes no
    /// further.
    Stop,
}

/// What is being read from the pipe.
pub struct Reader {
    size: (u32, u32),
    /// What has been read of the frame that is not whole yet.
    partial: Vec<u8>,
}

/// What [`Reader`] holds.
pub ghost struct Cut {
    pub size: (u32, u32),
    pub partial: Seq<u8>,
}

impl View for Reader {
    type V = Cut;

    closed spec fn view(&self) -> Cut {
        Cut { size: self.size, partial: self.partial@ }
    }
}

impl Cut {
    /// Nothing read yet of a stream of frames of `size`.
    pub open spec fn fresh(size: (u32, u32)) -> Cut {
        Cut { size, partial: Seq::empty() }
    }

    /// How many bytes the frame is short of.
    pub open spec fn room(self) -> int {
        spec_frame_bytes(self.size) - self.partial.len()
    }

    /// The frame that `read` completes, if it does.
    pub open spec fn completed(self, read: Seq<u8>) -> Option<Seq<u8>> {
        if read.len() == self.room() {
            Some(self.partial + read)
        } else {
            None
        }
    }

    /// What is held once `read` has been taken in.
    pub open spec fn after(self, read: Seq<u8>) -> Cut {
        if read.len() == self.room() {
            Cut::fresh(self.size)
        } else {
            Cut { partial: self.partial + read, ..self }
        }
    }
}

impl Reader {
    /// What is held is less than a frame, and a frame can be held.
    pub open spec fn wf(&self) -> bool {
        &&& self@.room() > 0
        &&& spec_frame_bytes(self@.size) <= usize::MAX
    }

    /// Reads a stream of frames of `size` from its start.
    pub fn new(size: (u32, u32)) -> (reader: Reader)
        requires
            size.0 > 0,
            size.1 > 0,
            spec_frame_bytes(size) <= usize::MAX,
        ensures
            reader.wf(),
            reader@ == Cut::fresh(size),
    {
        proof {
            assert(size.0 as nat * size.1 as nat > 0) by (nonlinear_arith)
                requires
                    size.0 > 0,
                    size.1 > 0,
            ;
        }
        Reader { size, partial: Vec::new() }
    }

    /// How many bytes to ask the pipe for: what the frame is short of, so that
    /// no read takes in anything of the next.
    pub fn wanted(&self) -> (bytes: usize)
        requires
            self.wf(),
        ensures
            bytes == self@.room(),
    {
        frame_bytes(self.size) - self.partial.len()
    }

    /// Takes in what the pipe gave back, and says what to do. Nothing at all
    /// is the stream ending: a killed child, or a camera unplugged.
    pub fn next(&mut self, read: Vec<u8>) -> (relay: Relay)
        requires
            old(self).wf(),
            read@.len() <= old(self)@.room(),
        ensures
            final(self).wf(),
            final(self)@ == old(self)@.after(read@),
            match relay {
                Relay::Stop => read@.len() == 0,
                Relay::More => read@.len() > 0 && old(self)@.completed(read@) is None,
                Relay::Hand(frame) => {
                    read@.len() > 0 && old(self)@.completed(read@) == Some(frame@)
                },
            },
    {
        if read.len() == 0 {
            assert(self.partial@ + read@ =~= self.partial@);
            return Relay::Stop;
        }
        let wanted: usize = self.wanted();
        let whole: bool = read.len() == wanted;
        let mut rest: Vec<u8> = read;
        self.partial.append(&mut rest);
        if whole {
            let mut frame: Vec<u8> = Vec::new();
            std::mem::swap(&mut frame, &mut self.partial);
            Relay::Hand(frame)
        } else {
            Relay::More
        }
    }
}

/// All that `reads` gave back.
pub open spec fn written(reads: Seq<Seq<u8>>) -> Seq<u8>
    decreases reads.len(),
{
    if reads.len() == 0 {
        Seq::empty()
    } else {
        written(reads.drop_last()) + reads.last()
    }
}

/// What is held of a stream of frames of `size` after `reads`.
pub open spec fn held(size: (u32, u32), reads: Seq<Seq<u8>>) -> Cut
    decreases reads.len(),
{
    if reads.len() == 0 {
        Cut::fresh(size)
    } else {
        held(size, reads.drop_last()).after(reads.last())
    }
}

/// The frames handed over, in order, of a stream of frames of `size` after
/// `reads`.
pub open spec fn handed(size: (u32, u32), reads: Seq<Seq<u8>>) -> Seq<Seq<u8>>
    decreases reads.len(),
{
    if reads.len() == 0 {
        Seq::empty()
    } else {
        let before = reads.drop_last();
        match held(size, before).completed(reads.last()) {
            Some(frame) => handed(size, before).push(frame),
            None => handed(size, before),
        }
    }
}

/// Whether each of `reads` gave back no more than was asked for.
pub open spec fn within(size: (u32, u32), reads: Seq<Seq<u8>>) -> bool
    decreases reads.len(),
{
    reads.len() == 0 || {
        &&& within(size, reads.drop_last())
        &&& reads.last().len() <= held(size, reads.drop_last()).room()
    }
}

/// Whether `frame` is number `k`, from zero, of the frames of `size` that
/// `stream` is made of, and all of it is there.
pub open spec fn is_frame_of(stream: Seq<u8>, size: (u32, u32), k: int, frame: Seq<u8>) -> bool {
    let n = spec_frame_bytes(size);
    &&& 0 <= k
    &&& (k + 1) * n <= stream.len()
    &&& frame == stream.subrange(k * n, (k + 1) * n)
}

/// From the start of one frame to the start of the next is one frame.
pub proof fn lemma_frame_length(size: (u32, u32), k: int)
    ensures
        (k + 1) * spec_frame_bytes(size) - k * spec_frame_bytes(size) == spec_frame_bytes(size),
        k >= 0 ==> 0 <= k * spec_frame_bytes(size),
{
    let n = spec_frame_bytes(size);
    assert((k + 1) * n - k * n == n) by (nonlinear_arith);
    assert(k >= 0 ==> 0 <= k * n) by (nonlinear_arith);
}

/// A stream is cut into its whole frames, however the reads fell: each that is
/// handed over is the next of the stream, none is left out, and what is held
/// back is what follows them, less than a frame.
pub proof fn law_a_stream_is_cut_into_whole_frames(size: (u32, u32), reads: Seq<Seq<u8>>)
    requires
        size.0 > 0,
        size.1 > 0,
        within(size, reads),
    ensures
        ({
            let stream = written(reads);
            let frames = handed(size, reads);
            let n = spec_frame_bytes(size);
            &&& forall|k: int|
                0 <= k < frames.len() ==> is_frame_of(stream, size, k, #[trigger] frames[k])
            &&& frames.len() * n <= stream.len() < (frames.len() + 1) * n
            &&& held(size, reads) == (Cut {
                size,
                partial: stream.subrange((frames.len() * n) as int, stream.len() as int),
            })
        }),
    decreases reads.len(),
{
    let stream = written(reads);
    let frames = handed(size, reads);
    let n = spec_frame_bytes(size);
    assert(n > 0) by (nonlinear_arith)
        requires
            n == size.0 as nat * size.1 as nat * 4,
            size.0 > 0,
            size.1 > 0,
    ;
    if reads.len() > 0 {
        let before = reads.drop_last();
        law_a_stream_is_cut_into_whole_frames(size, before);
        let earlier = written(before);
        let whole = handed(size, before);
        lemma_frame_length(size, whole.len() as int);
        lemma_frame_length(size, whole.len() as int + 1);
        assert forall|k: int| 0 <= k < frames.len() implies is_frame_of(
            stream,
            size,
            k,
            #[trigger] frames[k],
        ) by {
            lemma_frame_length(size, k);
            if k < whole.len() {
                assert(is_frame_of(earlier, size, k, whole[k]));
                assert(stream.subrange(k * n, (k + 1) * n) =~= whole[k]);
            } else {
                assert(stream.subrange(k * n, (k + 1) * n) =~= frames[k]);
            }
        }
        assert(held(size, reads).partial =~= stream.subrange(
            (frames.len() * n) as int,
            stream.len() as int,
        ));
    } else {
        assert(0 * n == 0 && 1 * n == n) by (nonlinear_arith);
        assert(Seq::<u8>::empty() =~= stream.subrange(0, 0));
    }
}

/// A read completes a frame exactly when, with what is held, it makes four
/// bytes for every pixel; the frame is then what was held and what was read,
/// one behind the other, and nothing is held any more. Any other read is held
/// behind what was.
pub proof fn law_a_read_completes_a_frame_or_is_held(cut: Cut, read: Seq<u8>)
    ensures
        ({
            let bytes = cut.size.0 * cut.size.1 * 4;
            let held = cut.partial + read;
            &&& cut.room() == bytes - cut.partial.len()
            &&& cut.after(read).size == cut.size
            &&& if cut.partial.len() + read.len() == bytes {
                &&& cut.completed(read) == Some(held)
                &&& cut.after(read).partial == Seq::<u8>::empty()
            } else {
                &&& cut.completed(read) is None
                &&& cut.after(read).partial == held
            }
        }),
        Cut::fresh(cut.size).partial == Seq::<u8>::empty(),
        Cut::fresh(cut.size).size == cut.size,
{
}

} // verus!
