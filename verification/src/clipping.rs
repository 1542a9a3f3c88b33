//! Paint-time clipping shared by recursive formatting contexts.

use vstd::prelude::*;
use crate::pdf_text::push_text;

verus! {

/// The clip commands that deferred stacking fragments must replay: the
/// innermost clip is the last one.
pub struct StackingTraversal {
    clips: Vec<String>,
}

impl View for StackingTraversal {
    type V = Seq<Seq<char>>;

    closed spec fn view(&self) -> Seq<Seq<char>> {
        self.clips@.map_values(|clip: String| clip@)
    }
}

/// The clips in force after leaving the innermost one.
pub open spec fn clips_after_pop(clips: Seq<Seq<char>>) -> Seq<Seq<char>> {
    if clips.len() == 0 {
        clips
    } else {
        clips.drop_last()
    }
}

impl StackingTraversal {
    /// A traversal with no clip in force.
    pub fn new() -> (traversal: Self)
        ensures
            traversal@ == Seq::<Seq<char>>::empty(),
    {
        let traversal = StackingTraversal { clips: Vec::new() };
        proof {
            assert(traversal@ =~= Seq::<Seq<char>>::empty());
        }
        traversal
    }

    /// How many clips are in force.
    pub fn depth(&self) -> (depth: usize)
        ensures
            depth == self@.len(),
    {
        self.clips.len()
    }

    /// Enter a clip.
    pub fn push_clip(&mut self, command: String)
        ensures
            final(self)@ == old(self)@.push(command@),
    {
        self.clips.push(command);
        proof {
            assert(self@ =~= old(self)@.push(command@));
        }
    }

    /// Leave the innermost clip; with none in force nothing changes.
    pub fn pop_clip(&mut self)
        ensures
            final(self)@ == clips_after_pop(old(self)@),
    {
        let _ = self.clips.pop();
        proof {
            if old(self)@.len() > 0 {
                assert(self@ =~= old(self)@.drop_last());
            } else {
                assert(self@ =~= old(self)@);
            }
        }
    }
}

/// One PDF graphics-state clip mirrored into deferred stacking fragments.
///
/// Layout retains complete content. Every renderer enters this scope around
/// the content phase so glyph ink, nested blocks, and positioned descendants
/// are clipped by the same geometry even when stacking defers their paint.
pub struct ContentClip {
    command: String,
}

/// The operators that save the graphics state and clip to `path`.
pub open spec fn clip_command(path: Seq<char>) -> Seq<char> {
    "q\n"@ + path + "W n\n"@
}

impl ContentClip {
    /// The operators that open this clip.
    pub closed spec fn command(&self) -> Seq<char> {
        self.command@
    }

    /// A clip to a path given as PDF path operators.
    pub fn from_path(path: String) -> (clip: Self)
        ensures
            clip.command() == clip_command(path@),
    {
        let mut command = String::new();
        push_text(&mut command, "q\n");
        push_text(&mut command, path.as_str());
        push_text(&mut command, "W n\n");
        proof {
            assert(command@ =~= clip_command(path@));
        }
        ContentClip { command }
    }

    /// Open the clip in the content stream and in the stacking traversal.
    pub fn begin(&self, output: &mut String, stacking: &mut StackingTraversal)
        ensures
            final(output)@ == old(output)@ + self.command(),
            final(stacking)@ == old(stacking)@.push(self.command()),
    {
        push_text(output, self.command.as_str());
        stacking.push_clip(self.command.clone());
    }

    /// Close the clip in the stacking traversal and restore the graphics
    /// state.
    pub fn finish(&self, output: &mut String, stacking: &mut StackingTraversal)
        ensures
            final(output)@ == old(output)@ + "Q\n"@,
            final(stacking)@ == clips_after_pop(old(stacking)@),
    {
        stacking.pop_clip();
        push_text(output, "Q\n");
    }
}

/// A clip scope is balanced: entering a clip and then leaving it gives
/// back the clips that were in force before.
pub proof fn lemma_clip_scope_restores(clips: Seq<Seq<char>>, command: Seq<char>)
    ensures
        clips_after_pop(clips.push(command)) == clips,
{
    assert(clips.push(command).drop_last() =~= clips);
}

} // verus!
