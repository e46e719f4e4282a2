//! The scene stack: only the top scene is active, and it moves the stack by
//! one of four transitions.

use vstd::prelude::*;
use crate::input::InputEvent;

verus! {

/// What a scene asks of the stack.
pub enum Transition<S> {
    /// Go on as before.
    Continue,
    /// Suspend the current scene and put a new one on top.
    Push(S),
    /// Discard the current scene and put a new one in its place.
    Replace(S),
    /// Discard the current scene and resume the one beneath.
    Pop,
}

/// One screen of the application.
///
/// What a scene does with time and input is its own affair. Each scene may
/// say for itself, in `updated` and `handled`, what its two methods make of
/// it; a scene that says nothing lets both hold of everything. The stack
/// relies on neither and only hands them on.
pub trait Scene: Sized {
    /// `update` with `dt_ms` may turn `self` into `after` and ask for
    /// `asked`.
    open spec fn updated(&self, dt_ms: u32, after: &Self, asked: &Transition<Self>) -> bool {
        true
    }

    /// `handle_input` with `event` may turn `self` into `after` and ask for
    /// `asked`.
    open spec fn handled(&self, event: InputEvent, after: &Self, asked: &Transition<Self>) -> bool {
        true
    }

    /// Advances the scene by `dt_ms` milliseconds.
    fn update(&mut self, dt_ms: u32) -> (asked: Transition<Self>)
        ensures
            old(self).updated(dt_ms, final(self), &asked),
    ;

    /// Hands the scene an input event.
    fn handle_input(&mut self, event: InputEvent) -> (asked: Transition<Self>)
        ensures
            old(self).handled(event, final(self), &asked),
    ;
}

/// The stack that a transition leaves. On an empty stack `Pop` does nothing
/// and `Replace` pushes.
pub open spec fn stack_after<S>(stack: Seq<S>, t: Transition<S>) -> Seq<S> {
    match t {
        Transition::Continue => stack,
        Transition::Push(s) => stack.push(s),
        Transition::Replace(s) => if stack.len() > 0 {
            stack.drop_last().push(s)
        } else {
            stack.push(s)
        },
        Transition::Pop => if stack.len() > 0 {
            stack.drop_last()
        } else {
            stack
        },
    }
}

/// `now` can be reached from `before` by changing the top scene and then
/// applying one transition: everything beneath the top is as it was, and
/// the depth moved by one at most.
pub open spec fn one_step_from<S>(before: Seq<S>, now: Seq<S>) -> bool {
    &&& before.len() - 1 <= now.len() <= before.len() + 1
    &&& forall|i: int| 0 <= i < before.len() - 1 ==> now[i] == before[i]
}

/// `now` is what an update of the active scene with `dt_ms` makes of
/// `before`: the top scene has turned into what its `update` made of it, and
/// the transition that it asked for has been applied to the stack with the
/// new top. An empty stack stays as it is.
pub open spec fn after_update<S: Scene>(before: Seq<S>, dt_ms: u32, now: Seq<S>) -> bool {
    if before.len() == 0 {
        now == before
    } else {
        exists|top: S, asked: Transition<S>|
            #[trigger] before.last().updated(dt_ms, &top, &asked) && now == stack_after(
                before.drop_last().push(top),
                asked,
            )
    }
}

/// `now` is what an input event handed to the active scene makes of
/// `before`: the top scene has turned into what its `handle_input` made of
/// it, and the transition that it asked for has been applied to the stack
/// with the new top. An empty stack stays as it is.
pub open spec fn after_input<S: Scene>(before: Seq<S>, event: InputEvent, now: Seq<S>) -> bool {
    if before.len() == 0 {
        now == before
    } else {
        exists|top: S, asked: Transition<S>|
            #[trigger] before.last().handled(event, &top, &asked) && now == stack_after(
                before.drop_last().push(top),
                asked,
            )
    }
}

/// `now` is what one frame makes of `before`: first the update of the scene
/// that is active, then, where there is an event, the event to the scene
/// that is active after the update.
pub open spec fn after_frame<S: Scene>(
    before: Seq<S>,
    dt_ms: u32,
    event: InputEvent,
    now: Seq<S>,
) -> bool {
    exists|mid: Seq<S>| #[trigger]
        after_update(before, dt_ms, mid) && (if event is NoEvent {
            now == mid
        } else {
            after_input(mid, event, now)
        })
}

/// A stack of scenes; the last one is active.
pub struct SceneManager<S: Scene> {
    stack: Vec<S>,
}

impl<S: Scene> View for SceneManager<S> {
    type V = Seq<S>;

    closed spec fn view(&self) -> Seq<S> {
        self.stack@
    }
}

impl<S: Scene> SceneManager<S> {
    /// The stack that holds `initial` alone.
    pub fn new(initial: S) -> (m: SceneManager<S>)
        ensures
            m@ == seq![initial],
    {
        let mut stack: Vec<S> = Vec::new();
        stack.push(initial);
        assert(stack@ =~= seq![initial]);
        SceneManager { stack }
    }

    /// Whether no scene is left, which is the one signal to exit.
    pub fn is_empty(&self) -> (empty: bool)
        ensures
            empty == (self@.len() == 0),
    {
        self.stack.len() == 0
    }

    /// How many scenes are stacked.
    pub fn depth(&self) -> (n: usize)
        ensures
            n == self@.len(),
    {
        self.stack.len()
    }

    /// The active scene, if any: the one to draw.
    pub fn active(&self) -> (top: Option<&S>)
        ensures
            top is Some <==> self@.len() > 0,
            top matches Some(s) ==> *s == self@.last(),
    {
        let n: usize = self.stack.len();
        if n == 0 {
            None
        } else {
            Some(&self.stack[n - 1])
        }
    }

    /// Applies one transition.
    pub fn apply(&mut self, transition: Transition<S>)
        ensures
            final(self)@ == stack_after(old(self)@, transition),
    {
        match transition {
            Transition::Continue => {},
            Transition::Push(scene) => {
                self.stack.push(scene);
            },
            Transition::Replace(scene) => {
                self.stack.pop();
                self.stack.push(scene);
            },
            Transition::Pop => {
                self.stack.pop();
            },
        }
    }

    /// Forwards elapsed time to the active scene and applies the transition
    /// it asks for. The scenes beneath are not touched; an empty stack stays
    /// empty.
    pub fn update(&mut self, dt_ms: u32)
        ensures
            after_update(old(self)@, dt_ms, final(self)@),
            old(self)@.len() == 0 ==> final(self)@ == old(self)@,
            one_step_from(old(self)@, final(self)@),
    {
        let n: usize = self.stack.len();
        if n == 0 {
            return ;
        }
        let transition = self.stack[n - 1].update(dt_ms);
        let ghost top = self.stack@[n - 1];
        let ghost asked = transition;
        assert(self.stack@ =~= old(self)@.drop_last().push(top));
        self.apply(transition);
        assert(old(self)@.last().updated(dt_ms, &top, &asked) && self@ == stack_after(
            old(self)@.drop_last().push(top),
            asked,
        ));
    }

    /// Forwards an input event to the active scene and applies the
    /// transition it asks for. The scenes beneath are not touched; an empty
    /// stack stays empty.
    pub fn handle_input(&mut self, event: InputEvent)
        ensures
            after_input(old(self)@, event, final(self)@),
            old(self)@.len() == 0 ==> final(self)@ == old(self)@,
            one_step_from(old(self)@, final(self)@),
    {
        let n: usize = self.stack.len();
        if n == 0 {
            return ;
        }
        let transition = self.stack[n - 1].handle_input(event);
        let ghost top = self.stack@[n - 1];
        let ghost asked = transition;
        assert(self.stack@ =~= old(self)@.drop_last().push(top));
        self.apply(transition);
        assert(old(self)@.last().handled(event, &top, &asked) && self@ == stack_after(
            old(self)@.drop_last().push(top),
            asked,
        ));
    }

    /// One frame: time goes to the active scene first, then the event, if
    /// there is one, to the scene that is active after that. Returns whether
    /// the application goes on, which is whether a scene is left.
    pub fn frame(&mut self, dt_ms: u32, event: InputEvent) -> (running: bool)
        ensures
            after_frame(old(self)@, dt_ms, event, final(self)@),
            running == (final(self)@.len() > 0),
            old(self)@.len() == 0 ==> final(self)@ == old(self)@,
            event is NoEvent ==> one_step_from(old(self)@, final(self)@),
            old(self)@.len() - 2 <= final(self)@.len() <= old(self)@.len() + 2,
            forall|i: int| 0 <= i < old(self)@.len() - 2 ==> final(self)@[i] == old(self)@[i],
    {
        self.update(dt_ms);
        let ghost mid = self@;
        match event {
            InputEvent::NoEvent => {},
            _ => {
                self.handle_input(event);
            },
        }
        assert(after_update(old(self)@, dt_ms, mid) && (if event is NoEvent {
            self@ == mid
        } else {
            after_input(mid, event, self@)
        }));
        !self.is_empty()
    }
}

/// A push followed by a pop leaves the stack as it was.
pub proof fn lemma_push_pop<S>(stack: Seq<S>, scene: S)
    ensures
        stack_after(stack_after(stack, Transition::Push(scene)), Transition::Pop) == stack,
{
    assert(stack.push(scene).drop_last() =~= stack);
}

/// On a stack that is not empty, a replacement keeps the depth and everything
/// beneath the top, a push adds one scene on top, and a pop takes one off;
/// in each case the new scene, if there is one, is the active one.
pub proof fn lemma_transitions<S>(stack: Seq<S>, scene: S)
    requires
        stack.len() > 0,
    ensures
        stack_after(stack, Transition::Push(scene)).len() == stack.len() + 1,
        stack_after(stack, Transition::Push(scene)).last() == scene,
        stack_after(stack, Transition::Push(scene)).drop_last() == stack,
        stack_after(stack, Transition::Replace(scene)).len() == stack.len(),
        stack_after(stack, Transition::Replace(scene)).last() == scene,
        stack_after(stack, Transition::Replace(scene)).drop_last() == stack.drop_last(),
        stack_after(stack, Transition::<S>::Pop).len() == stack.len() - 1,
        stack_after(stack, Transition::<S>::Pop) == stack.drop_last(),
        stack_after(stack, Transition::<S>::Continue) == stack,
{
    assert(stack.push(scene).drop_last() =~= stack);
    assert(stack.drop_last().push(scene).drop_last() =~= stack.drop_last());
}

/// The stack empties only by a pop of its last scene: whatever the
/// transition, a stack of two or more scenes is not empty afterwards, and a
/// stack of one is empty afterwards exactly when the transition is a pop.
pub proof fn lemma_only_pop_empties<S>(stack: Seq<S>, t: Transition<S>)
    requires
        stack.len() > 0,
    ensures
        stack_after(stack, t).len() == 0 <==> stack.len() == 1 && t is Pop,
{
}

/// Every transition is one step: it leaves what lies beneath the top alone.
pub proof fn lemma_transition_is_one_step<S>(stack: Seq<S>, t: Transition<S>)
    ensures
        one_step_from(stack, stack_after(stack, t)),
{
}

} // verus!
