//! What holds of the orchestrator through every step.
use crate::player::{
    block_commands, first_with, index_of, live, retire, retire_all, AudioDeviceView, BusEvent,
    EngineCommandView, EngineStatus, PlayerControlView, PlayerView, Segment, SegmentState,
    UNITY_GAIN,
};
use vstd::prelude::*;

verus! {

/// One input to the orchestrator.
pub enum Input {
    Start,
    Control(PlayerControlView, EngineStatus),
    Event(BusEvent),
    Tick(bool),
}

/// The orchestrator and the engine commands after one input.
pub open spec fn step(m: PlayerView, input: Input) -> (PlayerView, Seq<EngineCommandView>) {
    match input {
        Input::Start => m.started(),
        Input::Control(msg, status) => m.handle(msg, status),
        Input::Event(event) => m.on_event(event),
        Input::Tick(idle) => (m.tick(idle).0, Seq::empty()),
    }
}

/// The orchestrator after a run of inputs, and all the engine commands of
/// the run in order.
pub open spec fn run(m: PlayerView, inputs: Seq<Input>) -> (PlayerView, Seq<EngineCommandView>)
    decreases inputs.len(),
{
    if inputs.len() == 0 {
        (m, Seq::empty())
    } else {
        let before = run(m, inputs.drop_last());
        let last = step(before.0, inputs.last());
        (last.0, before.1 + last.1)
    }
}

/// How often a list of commands asks for the shared output chain.
pub open spec fn builds(cmds: Seq<EngineCommandView>) -> nat
    decreases cmds.len(),
{
    if cmds.len() == 0 {
        0
    } else if cmds.last() is BuildChain {
        builds(cmds.drop_last()) + 1
    } else {
        builds(cmds.drop_last())
    }
}

/// The position of a segment's state in the order in which states follow
/// each other.
pub open spec fn rank(state: SegmentState) -> nat {
    match state {
        SegmentState::Building => 0,
        SegmentState::Linked => 1,
        SegmentState::Draining => 2,
        SegmentState::Zombie => 3,
        SegmentState::Reclaimed => 4,
    }
}

proof fn lemma_index_of(segs: Seq<Segment>, id: u64)
    ensures
        index_of(segs, id) matches Some(i) ==> first_with(segs, id, i),
        index_of(segs, id) is None ==> forall|j: int| 0 <= j < segs.len() ==> segs[j].id != id,
{
    if index_of(segs, id) is None {
        assert forall|j: int| 0 <= j < segs.len() implies segs[j].id != id by {
            if segs[j].id == id {
                lemma_first_exists(segs, id, j);
            }
        }
    }
}

proof fn lemma_first_exists(segs: Seq<Segment>, id: u64, j: int)
    requires
        0 <= j < segs.len(),
        segs[j].id == id,
    ensures
        exists|i: int| first_with(segs, id, i),
    decreases j,
{
    if forall|k: int| 0 <= k < j ==> segs[k].id != id {
        assert(first_with(segs, id, j));
    } else {
        let k = choose|k: int| 0 <= k < j && segs[k].id == id;
        lemma_first_exists(segs, id, k);
    }
}

/// Start keeps the orchestrator well formed.
pub proof fn lemma_started_keeps_wf(m: PlayerView)
    requires
        m.wf(),
    ensures
        m.started().0.wf(),
{
}

/// Every control command keeps the orchestrator well formed. In
/// particular the persisted gain never rises above unity.
pub proof fn lemma_handle_keeps_wf(m: PlayerView, msg: PlayerControlView, status: EngineStatus)
    requires
        m.wf(),
    ensures
        m.handle(msg, status).0.wf(),
{
    let after = m.handle(msg, status).0;
    match msg {
        PlayerControlView::Stream { .. } => {
            if m.built && m.next_id != u64::MAX {
                assert forall|i: int, j: int| 0 <= i < j < after.segments.len() implies (
                #[trigger] after.segments[i]).id > (#[trigger] after.segments[j]).id by {
                    if i > 0 {
                        assert(after.segments[i] == m.segments[i - 1]);
                    }
                    assert(after.segments[j] == m.segments[j - 1]);
                }
                assert forall|i: int| 0 <= i < after.segments.len() implies {
                    &&& (#[trigger] after.segments[i]).id < after.next_id
                    &&& (live(after.segments[i]) || after.segments[i].state is Draining)
                    &&& (after.segments[i].blocked ==> after.segments[i].state is Draining)
                } by {
                    if i > 0 {
                        assert(after.segments[i] == m.segments[i - 1]);
                    }
                }
                assert forall|i: int, j: int|
                    0 <= i < after.segments.len() && 0 <= j < after.zombies.len() implies (
                #[trigger] after.segments[i]).id != (#[trigger] after.zombies[j]).id by {
                    if i > 0 {
                        assert(after.segments[i] == m.segments[i - 1]);
                    }
                }
            }
        },
        PlayerControlView::Stop => {
            lemma_retire_keeps_wf(m, 0);
            assert(m.segments.take(0) + retire_all(m.segments.skip(0)) =~= retire_all(m.segments));
        },
        _ => {},
    }
}

proof fn lemma_same_ids_keep_wf(m: PlayerView, segs: Seq<Segment>)
    requires
        m.wf(),
        segs.len() == m.segments.len(),
        forall|j: int|
            0 <= j < segs.len() ==> {
                &&& (#[trigger] segs[j]).id == m.segments[j].id
                &&& (live(segs[j]) || segs[j].state is Draining)
                &&& (segs[j].blocked ==> segs[j].state is Draining)
            },
    ensures
        (PlayerView { segments: segs, ..m }).wf(),
{
    let after = PlayerView { segments: segs, ..m };
    assert forall|i: int, j: int| 0 <= i < j < after.segments.len() implies (
    #[trigger] after.segments[i]).id > (#[trigger] after.segments[j]).id by {
        assert(m.segments[i].id > m.segments[j].id);
    }
    assert forall|i: int, j: int|
        0 <= i < after.segments.len() && 0 <= j < after.zombies.len() implies (
    #[trigger] after.segments[i]).id != (#[trigger] after.zombies[j]).id by {
        assert(m.segments[i].id != m.zombies[j].id);
    }
    assert forall|i: int| 0 <= i < after.segments.len() implies (
    #[trigger] after.segments[i]).id < after.next_id by {
        assert(m.segments[i].id < m.next_id);
    }
}

proof fn lemma_retire_keeps_wf(m: PlayerView, kept: int)
    requires
        m.wf(),
        0 <= kept <= m.segments.len(),
    ensures
        (PlayerView {
            segments: m.segments.take(kept) + retire_all(m.segments.skip(kept)),
            ..m
        }).wf(),
{
    let segs = m.segments.take(kept) + retire_all(m.segments.skip(kept));
    assert forall|j: int| 0 <= j < segs.len() implies {
        &&& (#[trigger] segs[j]).id == m.segments[j].id
        &&& (live(segs[j]) || segs[j].state is Draining)
        &&& (segs[j].blocked ==> segs[j].state is Draining)
    } by {
        let old_one = m.segments[j];
        assert(live(old_one) || old_one.state is Draining);
        if j < kept {
            assert(segs[j] == old_one);
        } else {
            assert(segs[j] == retire(m.segments.skip(kept)[j - kept]));
            assert(m.segments.skip(kept)[j - kept] == old_one);
        }
    }
    lemma_same_ids_keep_wf(m, segs);
}

proof fn lemma_update_keeps_wf(m: PlayerView, i: int, s: Segment)
    requires
        m.wf(),
        0 <= i < m.segments.len(),
        s.id == m.segments[i].id,
        live(s) || s.state is Draining,
        s.blocked ==> s.state is Draining,
    ensures
        (PlayerView { segments: m.segments.update(i, s), ..m }).wf(),
{
    let segs = m.segments.update(i, s);
    assert forall|j: int| 0 <= j < segs.len() implies {
        &&& (#[trigger] segs[j]).id == m.segments[j].id
        &&& (live(segs[j]) || segs[j].state is Draining)
        &&& (segs[j].blocked ==> segs[j].state is Draining)
    } by {
        let old_one = m.segments[j];
        assert(live(old_one) || old_one.state is Draining);
    }
    lemma_same_ids_keep_wf(m, segs);
}

proof fn lemma_bury_keeps_wf(m: PlayerView, i: int)
    requires
        m.wf(),
        0 <= i < m.segments.len(),
    ensures
        (PlayerView {
            segments: m.segments.remove(i),
            zombies: m.zombies.push(
                Segment { id: m.segments[i].id, state: SegmentState::Zombie, blocked: true },
            ),
            ..m
        }).wf(),
{
    let after = PlayerView {
        segments: m.segments.remove(i),
        zombies: m.zombies.push(
            Segment { id: m.segments[i].id, state: SegmentState::Zombie, blocked: true },
        ),
        ..m
    };
    let gone = m.segments[i];
    assert forall|a: int| 0 <= a < after.segments.len() implies {
        &&& (#[trigger] after.segments[a]).id < after.next_id
        &&& (live(after.segments[a]) || after.segments[a].state is Draining)
        &&& (after.segments[a].blocked ==> after.segments[a].state is Draining)
    } by {
        let a0 = if a < i {
            a
        } else {
            a + 1
        };
        assert(after.segments[a] == m.segments[a0]);
    }
    assert forall|a: int, b: int| 0 <= a < b < after.segments.len() implies (
    #[trigger] after.segments[a]).id > (#[trigger] after.segments[b]).id by {
        let a0 = if a < i {
            a
        } else {
            a + 1
        };
        let b0 = if b < i {
            b
        } else {
            b + 1
        };
        assert(after.segments[a] == m.segments[a0]);
        assert(after.segments[b] == m.segments[b0]);
        assert(m.segments[a0].id > m.segments[b0].id);
    }
    assert forall|b: int| 0 <= b < after.zombies.len() implies {
        &&& (#[trigger] after.zombies[b]).id < after.next_id
        &&& after.zombies[b].state is Zombie
        &&& after.zombies[b].blocked
    } by {
        if b == m.zombies.len() {
            assert(gone.id < m.next_id);
        } else {
            assert(after.zombies[b] == m.zombies[b]);
        }
    }
    assert forall|a: int, b: int|
        0 <= a < after.segments.len() && 0 <= b < after.zombies.len() implies (
    #[trigger] after.segments[a]).id != (#[trigger] after.zombies[b]).id by {
        let a0 = if a < i {
            a
        } else {
            a + 1
        };
        assert(after.segments[a] == m.segments[a0]);
        if b == m.zombies.len() {
            if a0 < i {
                assert(m.segments[a0].id > gone.id);
            } else {
                assert(gone.id > m.segments[a0].id);
            }
        } else {
            assert(after.zombies[b] == m.zombies[b]);
            assert(m.segments[a0].id != m.zombies[b].id);
        }
    }
    assert forall|a: int, b: int| 0 <= a < b < after.zombies.len() implies (
    #[trigger] after.zombies[a]).id != (#[trigger] after.zombies[b]).id by {
        assert(after.zombies[a] == m.zombies[a]);
        if b == m.zombies.len() {
            assert(gone.id != m.zombies[a].id);
        } else {
            assert(after.zombies[b] == m.zombies[b]);
            assert(m.zombies[a].id != m.zombies[b].id);
        }
    }
}

/// Every event of the engine keeps the orchestrator well formed.
pub proof fn lemma_on_event_keeps_wf(m: PlayerView, event: BusEvent)
    requires
        m.wf(),
    ensures
        m.on_event(event).0.wf(),
{
    match event {
        BusEvent::Error { segment: Some(id) } => {
            lemma_index_of(m.segments, id);
            if index_of(m.segments, id) is Some {
                let i = index_of(m.segments, id)->0;
                if live(m.segments[i]) {
                    lemma_update_keeps_wf(m, i, retire(m.segments[i]));
                }
            }
        },
        BusEvent::SegmentLinked { segment } => {
            lemma_index_of(m.segments, segment);
            if index_of(m.segments, segment) is Some {
                let i = index_of(m.segments, segment)->0;
                if m.segments[i].state is Building {
                    lemma_update_keeps_wf(
                        m,
                        i,
                        Segment { state: SegmentState::Linked, ..m.segments[i] },
                    );
                }
            }
        },
        BusEvent::DeleteRequested { segment } => {
            lemma_index_of(m.segments, segment);
            if index_of(m.segments, segment) is Some {
                let i = index_of(m.segments, segment)->0;
                lemma_update_keeps_wf(
                    m,
                    i,
                    Segment { id: segment, state: SegmentState::Draining, blocked: true },
                );
            }
        },
        BusEvent::SegmentIdle { segment } => {
            lemma_index_of(m.segments, segment);
            if index_of(m.segments, segment) is Some {
                let i = index_of(m.segments, segment)->0;
                lemma_bury_keeps_wf(m, i);
            }
        },
        BusEvent::StreamStart => {
            let kept = if m.segments.len() < 2 {
                m.segments.len() as int
            } else {
                2
            };
            lemma_retire_keeps_wf(m, kept);
        },
        _ => {},
    }
}

/// Every tick of the final reclaim keeps the orchestrator well formed.
pub proof fn lemma_tick_keeps_wf(m: PlayerView, idle: bool)
    requires
        m.wf(),
    ensures
        m.tick(idle).0.wf(),
{
    let after = m.tick(idle).0;
    if m.zombies.len() > 0 {
        assert forall|a: int| 0 <= a < after.zombies.len() implies exists|b: int|
            0 <= b < m.zombies.len() && #[trigger] after.zombies[a] == m.zombies[b] by {
            if a + 1 < m.zombies.len() {
                assert(after.zombies[a] == m.zombies[a + 1]);
            } else {
                assert(after.zombies[a] == m.zombies[0]);
            }
        }
        assert forall|a: int, b: int| 0 <= a < b < after.zombies.len() implies (
        #[trigger] after.zombies[a]).id != (#[trigger] after.zombies[b]).id by {
            assert(after.zombies[a] == m.zombies[a + 1]);
            if b + 1 < m.zombies.len() {
                assert(after.zombies[b] == m.zombies[b + 1]);
            } else {
                assert(after.zombies[b] == m.zombies[0]);
            }
        }
        assert forall|i: int, j: int|
            0 <= i < after.segments.len() && 0 <= j < after.zombies.len() implies (
        #[trigger] after.segments[i]).id != (#[trigger] after.zombies[j]).id by {
            if j + 1 < m.zombies.len() {
                assert(after.zombies[j] == m.zombies[j + 1]);
            } else {
                assert(after.zombies[j] == m.zombies[0]);
            }
        }
    }
}

proof fn lemma_no_build_counts_zero(cmds: Seq<EngineCommandView>)
    requires
        forall|i: int| 0 <= i < cmds.len() ==> !(#[trigger] cmds[i] is BuildChain),
    ensures
        builds(cmds) == 0,
    decreases cmds.len(),
{
    if cmds.len() > 0 {
        lemma_no_build_counts_zero(cmds.drop_last());
    }
}

proof fn lemma_builds_add(a: Seq<EngineCommandView>, b: Seq<EngineCommandView>)
    ensures
        builds(a + b) == builds(a) + builds(b),
    decreases b.len(),
{
    if b.len() == 0 {
        assert(a + b =~= a);
    } else {
        assert((a + b).drop_last() =~= a + b.drop_last());
        lemma_builds_add(a, b.drop_last());
    }
}

proof fn lemma_blocks_only(segs: Seq<Segment>)
    ensures
        forall|i: int|
            0 <= i < block_commands(segs).len() ==> #[trigger] block_commands(segs)[i] is Block,
    decreases segs.len(),
{
    if segs.len() > 0 {
        lemma_blocks_only(segs.drop_last());
    }
}

/// Once the shared output chain is built it stays built, and no input asks
/// for it again.
pub proof fn lemma_built_chain_is_kept(m: PlayerView, input: Input)
    requires
        m.built,
    ensures
        step(m, input).0.built,
        builds(step(m, input).1) == 0,
{
    let cmds = step(m, input).1;
    match input {
        Input::Control(PlayerControlView::Stop, _) => {
            lemma_blocks_only(m.segments);
        },
        Input::Event(BusEvent::StreamStart) => {
            let kept = if m.segments.len() < 2 {
                m.segments.len() as int
            } else {
                2
            };
            lemma_blocks_only(m.segments.skip(kept));
        },
        _ => {},
    }
    lemma_no_build_counts_zero(cmds);
}

/// The same of a whole run of inputs.
pub proof fn lemma_built_chain_is_kept_through(m: PlayerView, inputs: Seq<Input>)
    requires
        m.built,
    ensures
        run(m, inputs).0.built,
        builds(run(m, inputs).1) == 0,
    decreases inputs.len(),
{
    if inputs.len() > 0 {
        lemma_built_chain_is_kept_through(m, inputs.drop_last());
        let before = run(m, inputs.drop_last());
        lemma_built_chain_is_kept(before.0, inputs.last());
        lemma_builds_add(before.1, step(before.0, inputs.last()).1);
    }
}

/// The shared output chain is built exactly once in the life of an
/// orchestrator: its start asks for the chain once, and whatever commands,
/// events and ticks follow, however many streams among them, none asks for
/// it again.
pub proof fn lemma_chain_is_built_once(output_device: AudioDeviceView, inputs: Seq<Input>)
    ensures
        builds(PlayerView::initial(output_device).started().1) == 1,
        builds(run(PlayerView::initial(output_device).started().0, inputs).1) == 0,
{
    let first = PlayerView::initial(output_device).started();
    assert(first.1 =~= seq![EngineCommandView::BuildChain]);
    assert(first.1.drop_last() =~= Seq::<EngineCommandView>::empty());
    assert(builds(first.1.drop_last()) == 0);
    assert(first.1.last() is BuildChain);
    lemma_built_chain_is_kept_through(first.0, inputs);
}

/// Every input keeps the orchestrator well formed.
pub proof fn lemma_step_keeps_wf(m: PlayerView, input: Input)
    requires
        m.wf(),
    ensures
        step(m, input).0.wf(),
{
    match input {
        Input::Start => lemma_started_keeps_wf(m),
        Input::Control(msg, status) => lemma_handle_keeps_wf(m, msg, status),
        Input::Event(event) => lemma_on_event_keeps_wf(m, event),
        Input::Tick(idle) => lemma_tick_keeps_wf(m, idle),
    }
}

/// A segment is dropped only from the front of the zombie queue, on a tick
/// that finds its stages idle, and only after its output was blocked.
pub proof fn lemma_reclaimed_was_blocked_zombie(m: PlayerView, idle: bool)
    requires
        m.wf(),
        m.tick(idle).1 is Some,
    ensures
        idle,
        m.zombies.len() > 0,
        m.zombies[0].state is Zombie,
        m.zombies[0].blocked,
        m.tick(idle).1 == Some(Segment { state: SegmentState::Reclaimed, ..m.zombies[0] }),
        m.tick(idle).0.zombies == m.zombies.drop_first(),
{
}

/// The oldest zombie is dropped by the first tick that finds its stages
/// idle; until then it stays in the queue.
pub proof fn lemma_idle_zombie_is_reclaimed(m: PlayerView, idle: bool)
    requires
        m.zombies.len() > 0,
    ensures
        idle ==> m.tick(idle).1 == Some(
            Segment { state: SegmentState::Reclaimed, ..m.zombies[0] },
        ),
        !idle ==> m.tick(idle).1 is None && m.tick(idle).0.zombies.last() == m.zombies[0]
            && m.tick(idle).0.zombies.len() == m.zombies.len(),
{
}

/// A segment becomes a zombie in one way only: it goes idle while it is
/// draining with its output blocked.
pub proof fn lemma_zombie_was_blocked_and_draining(m: PlayerView, input: Input, z: Segment)
    requires
        m.wf(),
        step(m, input).0.zombies.contains(z),
        !m.zombies.contains(z),
    ensures
        input == Input::Event(BusEvent::SegmentIdle { segment: z.id }),
        m.segments.contains(
            Segment { id: z.id, state: SegmentState::Draining, blocked: true },
        ),
{
    let after = step(m, input).0;
    let k = choose|k: int| 0 <= k < after.zombies.len() && after.zombies[k] == z;
    match input {
        Input::Tick(idle) => {
            if m.zombies.len() > 0 {
                if k + 1 < m.zombies.len() {
                    assert(after.zombies[k] == m.zombies[k + 1]);
                } else {
                    assert(after.zombies[k] == m.zombies[0]);
                }
            }
        },
        Input::Event(BusEvent::SegmentIdle { segment }) => {
            lemma_index_of(m.segments, segment);
            if index_of(m.segments, segment) is Some {
                let i = index_of(m.segments, segment)->0;
                if m.segments[i].state is Draining && m.segments[i].blocked {
                    if k < m.zombies.len() {
                        assert(after.zombies[k] == m.zombies[k]);
                    }
                    assert(m.segments[i] == Segment {
                        id: z.id,
                        state: SegmentState::Draining,
                        blocked: true,
                    });
                }
            }
        },
        _ => {},
    }
}

/// A segment's output counts as blocked only from its delete request on.
pub proof fn lemma_blocked_by_delete_request(m: PlayerView, input: Input, s: Segment)
    requires
        m.wf(),
        step(m, input).0.segments.contains(s),
        s.blocked,
    ensures
        input == Input::Event(BusEvent::DeleteRequested { segment: s.id }) || m.segments.contains(
            s,
        ),
{
    let after = step(m, input).0;
    let k = choose|k: int| 0 <= k < after.segments.len() && after.segments[k] == s;
    lemma_states_move_forward(m, input, k);
    match input {
        Input::Control(PlayerControlView::Stream { .. }, _) => {
            if m.built && m.next_id != u64::MAX {
                assert(k > 0);
                assert(after.segments[k] == m.segments[k - 1]);
            }
        },
        Input::Control(PlayerControlView::Stop, _) => {
            assert(m.segments[k].blocked ==> m.segments[k].state is Draining);
        },
        Input::Event(BusEvent::Error { segment: Some(id) }) => {
            lemma_index_of(m.segments, id);
            assert(m.segments[k].blocked ==> m.segments[k].state is Draining);
        },
        Input::Event(BusEvent::SegmentLinked { segment }) => {
            lemma_index_of(m.segments, segment);
            assert(m.segments[k].blocked ==> m.segments[k].state is Draining);
        },
        Input::Event(BusEvent::DeleteRequested { segment }) => {
            lemma_index_of(m.segments, segment);
            if index_of(m.segments, segment) is Some {
                let i = index_of(m.segments, segment)->0;
                if k != i {
                    assert(after.segments[k] == m.segments[k]);
                }
            }
        },
        Input::Event(BusEvent::SegmentIdle { segment }) => {
            lemma_index_of(m.segments, segment);
            if index_of(m.segments, segment) is Some {
                let i = index_of(m.segments, segment)->0;
                if m.segments[i].state is Draining && m.segments[i].blocked {
                    let k0 = if k < i {
                        k
                    } else {
                        k + 1
                    };
                    assert(after.segments[k] == m.segments[k0]);
                }
            }
        },
        Input::Event(BusEvent::StreamStart) => {
            let kept = if m.segments.len() < 2 {
                m.segments.len() as int
            } else {
                2
            };
            assert(m.segments[k].blocked ==> m.segments[k].state is Draining);
            if k >= kept {
                assert(after.segments[k] == retire(m.segments.skip(kept)[k - kept]));
            }
        },
        _ => {},
    }
}

/// Segments only move forward through their states: after any input, a
/// segment on the graph is either the one that the input added, still
/// building, or was on the graph before in the same or an earlier state.
pub proof fn lemma_states_move_forward(m: PlayerView, input: Input, k: int)
    requires
        m.wf(),
        0 <= k < step(m, input).0.segments.len(),
    ensures
        ({
            let s = step(m, input).0.segments[k];
            ||| (s.id == m.next_id && s.state is Building && !s.blocked)
            ||| exists|j: int|
                0 <= j < m.segments.len() && (#[trigger] m.segments[j]).id == s.id && rank(
                    m.segments[j].state,
                ) <= rank(s.state)
        }),
{
    let after = step(m, input).0;
    let s = after.segments[k];
    match input {
        Input::Control(PlayerControlView::Stream { .. }, _) => {
            if m.built && m.next_id != u64::MAX {
                if k > 0 {
                    assert(after.segments[k] == m.segments[k - 1]);
                }
            } else {
                assert(m.segments[k].id == s.id);
            }
        },
        Input::Event(BusEvent::Error { segment: Some(id) }) => {
            lemma_index_of(m.segments, id);
            assert(m.segments[k].id == s.id);
        },
        Input::Event(BusEvent::SegmentLinked { segment }) => {
            lemma_index_of(m.segments, segment);
            assert(m.segments[k].id == s.id);
        },
        Input::Event(BusEvent::DeleteRequested { segment }) => {
            lemma_index_of(m.segments, segment);
            assert(m.segments[k].id == s.id);
            assert(live(m.segments[k]) || m.segments[k].state is Draining);
        },
        Input::Event(BusEvent::SegmentIdle { segment }) => {
            lemma_index_of(m.segments, segment);
            if index_of(m.segments, segment) is Some {
                let i = index_of(m.segments, segment)->0;
                if m.segments[i].state is Draining && m.segments[i].blocked {
                    let k0 = if k < i {
                        k
                    } else {
                        k + 1
                    };
                    assert(after.segments[k] == m.segments[k0]);
                } else {
                    assert(m.segments[k].id == s.id);
                }
            } else {
                assert(m.segments[k].id == s.id);
            }
        },
        Input::Event(BusEvent::StreamStart) => {
            let kept = if m.segments.len() < 2 {
                m.segments.len() as int
            } else {
                2
            };
            if k >= kept {
                assert(after.segments[k] == retire(m.segments.skip(kept)[k - kept]));
            }
            assert(m.segments[k].id == s.id);
        },
        _ => {
            assert(m.segments[k].id == s.id);
        },
    }
}

} // verus!
