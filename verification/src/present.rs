//! Pure presentation state for the Control tab: which hymn is loaded, which
//! slide is current, and whether output is blanked. No I/O, no UI — fully
//! unit-testable. The GUI mirrors this into the presenter view and projector.

use vstd::prelude::*;

verus! {

#[derive(Debug, Clone, PartialEq)]
pub struct PresentationState {
    pub number: Option<String>,
    pub title: String,
    pub slides: Vec<String>,
    pub index: usize,
    pub blank: bool,
}

impl Default for PresentationState {
    fn default() -> (r: Self)
        ensures
            r.number is None,
            r.title@ == Seq::<char>::empty(),
            r.slides@.len() == 0,
            r.index == 0,
            !r.blank,
    {
        PresentationState { number: None, title: String::new(), slides: Vec::new(), index: 0, blank: false }
    }
}

/// The index after one step forward: clamped at the last slide.
pub open spec fn next_index(index: int, count: int) -> int {
    if index + 1 < count {
        index + 1
    } else {
        index
    }
}

/// The index after one step back: clamped at the first slide.
pub open spec fn prev_index(index: int) -> int {
    if index > 0 {
        index - 1
    } else {
        0
    }
}

impl PresentationState {
    /// The state after one step forward.
    pub open spec fn after_next(self) -> Self {
        PresentationState { index: next_index(self.index as int, self.slides.len() as int) as usize, ..self }
    }

    /// The state after one step back.
    pub open spec fn after_prev(self) -> Self {
        PresentationState { index: prev_index(self.index as int) as usize, ..self }
    }

    /// The state with the blank flag flipped.
    pub open spec fn after_toggle(self) -> Self {
        PresentationState { blank: !self.blank, ..self }
    }

    /// The current slide exists, or no hymn (no slide) is loaded and the
    /// index is 0.
    pub open spec fn wf(&self) -> bool {
        self.index < self.slides.len() || (self.slides.len() == 0 && self.index == 0)
    }

    /// Load a hymn for presentation: reset to the first slide, unblank.
    pub fn load_hymn(&mut self, number: Option<String>, title: String, slides: Vec<String>)
        ensures
            final(self).number == number,
            final(self).title == title,
            final(self).slides == slides,
            final(self).index == 0,
            !final(self).blank,
            final(self).wf(),
    {
        self.number = number;
        self.title = title;
        self.slides = slides;
        self.index = 0;
        self.blank = false;
    }

    pub fn slide_count(&self) -> (r: usize)
        ensures
            r == self.slides.len(),
    {
        self.slides.len()
    }

    /// The current slide's text, or None if no hymn is loaded.
    pub fn current_slide(&self) -> (r: Option<&str>)
        ensures
            match r {
                Some(s) => self.index < self.slides.len() && s@ == self.slides@[self.index as int]@,
                None => self.index >= self.slides.len(),
            },
    {
        if self.index < self.slides.len() {
            Some(self.slides[self.index].as_str())
        } else {
            None
        }
    }

    /// A peek at the next slide, or None if on the last (or no) slide.
    pub fn next_slide(&self) -> (r: Option<&str>)
        ensures
            match r {
                Some(s) => self.index + 1 < self.slides.len() && s@ == self.slides@[self.index + 1]@,
                None => self.index + 1 >= self.slides.len(),
            },
    {
        if self.slides.len() > 0 && self.index < self.slides.len() - 1 {
            Some(self.slides[self.index + 1].as_str())
        } else {
            None
        }
    }

    /// Advance one slide, clamped at the last slide (no playlist roll-over).
    pub fn next(&mut self)
        ensures
            *final(self) == old(self).after_next(),
            final(self).index == next_index(old(self).index as int, old(self).slides.len() as int),
            old(self).wf() ==> final(self).wf(),
    {
        if self.slides.len() > 0 && self.index < self.slides.len() - 1 {
            self.index += 1;
        }
    }

    /// Go back one slide, clamped at the first.
    pub fn prev(&mut self)
        ensures
            *final(self) == old(self).after_prev(),
            final(self).index == prev_index(old(self).index as int),
            old(self).wf() ==> final(self).wf(),
    {
        if self.index > 0 {
            self.index -= 1;
        }
    }

    pub fn toggle_blank(&mut self)
        ensures
            *final(self) == old(self).after_toggle(),
            final(self).blank == !old(self).blank,
    {
        self.blank = !self.blank;
    }
}

/// Navigation stays within the hymn: from any valid position, any number of
/// forward steps ends on a slide that exists (at most the last one), and
/// stepping back never goes below the first slide.
pub proof fn navigation_stays_in_range(index: int, count: int, steps: nat)
    requires
        0 <= index < count,
    ensures
        0 <= repeat_next(index, count, steps) < count,
        repeat_next(index, count, steps) >= index,
        0 <= prev_index(index) <= index,
    decreases steps,
{
    if steps > 0 {
        navigation_stays_in_range(index, count, (steps - 1) as nat);
    }
}

/// `index` after `steps` forward steps.
pub open spec fn repeat_next(index: int, count: int, steps: nat) -> int
    decreases steps,
{
    if steps == 0 {
        index
    } else {
        next_index(repeat_next(index, count, (steps - 1) as nat), count)
    }
}

/// Enough forward steps always end on the last slide (clamped, no roll-over).
pub proof fn forward_steps_reach_last_slide(index: int, count: int, steps: nat)
    requires
        0 <= index < count,
        index + steps >= count - 1,
    ensures
        repeat_next(index, count, steps) == count - 1,
    decreases steps,
{
    if steps > 0 {
        if index + steps - 1 >= count - 1 {
            forward_steps_reach_last_slide(index, count, (steps - 1) as nat);
        } else {
            repeat_next_exact(index, count, (steps - 1) as nat);
        }
    }
}

proof fn repeat_next_exact(index: int, count: int, steps: nat)
    requires
        0 <= index,
        index + steps < count,
    ensures
        repeat_next(index, count, steps) == index + steps,
    decreases steps,
{
    if steps > 0 {
        repeat_next_exact(index, count, (steps - 1) as nat);
    }
}

/// Toggling the blank flag twice restores the state.
pub proof fn toggle_blank_twice(s: PresentationState)
    ensures
        s.after_toggle().after_toggle() == s,
{
}

/// Stepping forward then back restores the state, unless the step forward
/// was clamped at the last slide; stepping back then forward restores it
/// unless the step back was clamped at the first slide.
pub proof fn next_prev_undo(s: PresentationState)
    ensures
        s.index + 1 < s.slides.len() ==> s.after_next().after_prev() == s,
        0 < s.index < s.slides.len() ==> s.after_prev().after_next() == s,
{
}

/// Stepping, in either direction, and blanking keep a valid state valid and
/// leave the loaded hymn unchanged.
pub proof fn navigation_keeps_state_valid(s: PresentationState)
    requires
        s.wf(),
    ensures
        s.after_next().wf(),
        s.after_prev().wf(),
        s.after_toggle().wf(),
        s.after_next().slides == s.slides && s.after_next().title == s.title && s.after_next().number == s.number,
        s.after_prev().slides == s.slides && s.after_prev().title == s.title && s.after_prev().number == s.number,
{
}

/// At the last slide, stepping forward changes nothing; at the first,
/// stepping back changes nothing (clamped, no roll-over).
pub proof fn navigation_clamps_at_ends(s: PresentationState)
    ensures
        s.slides.len() > 0 && s.index == s.slides.len() - 1 ==> s.after_next() == s,
        s.index == 0 ==> s.after_prev() == s,
{
}

} // verus!
