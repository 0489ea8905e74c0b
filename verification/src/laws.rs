//! What holds of every session, whatever is done to it.

use crate::commitment::{commitment_digest, opens};
use crate::data::{lemma_joined_wf, SessionView};
use crate::dictator::DictatorView;
use crate::public_good::{payable, PublicGood};
use crate::rock_paper_scissors::RockPaperScissors;
use crate::round::{entry_of, has_entry, lemma_entry_at};
use crate::types::{AccountId, GameError, GameStatus, RoundStatus};
use vstd::prelude::*;

verus! {

/// One call of `join`: who calls, whom the call enters, and what is paid.
pub struct JoinCall {
    pub caller: AccountId,
    pub player: AccountId,
    pub value: u128,
}

/// The session after a sequence of calls of `join`, each of which enters its
/// player or, where it fails, changes nothing.
pub open spec fn after_joins(session: SessionView, calls: Seq<JoinCall>) -> SessionView
    decreases calls.len(),
{
    if calls.len() == 0 {
        session
    } else {
        let before = after_joins(session, calls.drop_last());
        let call = calls.last();
        if before.join_error(call.caller, call.player, call.value) is None {
            before.joined(call.player)
        } else {
            before
        }
    }
}

/// Whatever calls of `join` are made, in whatever order, the players never
/// number more than `max_players`, no player is there twice, and those who
/// were there before are still there, in their places.
pub proof fn lemma_joins_keep_the_registry(session: SessionView, calls: Seq<JoinCall>)
    requires
        session.wf(),
    ensures
        after_joins(session, calls).wf(),
        after_joins(session, calls).configs == session.configs,
        after_joins(session, calls).players.len() <= session.configs.max_players,
        after_joins(session, calls).players.no_duplicates(),
        session.players.is_prefix_of(after_joins(session, calls).players),
    decreases calls.len(),
{
    if calls.len() > 0 {
        lemma_joins_keep_the_registry(session, calls.drop_last());
        let before = after_joins(session, calls.drop_last());
        let call = calls.last();
        if before.join_error(call.caller, call.player, call.value) is None {
            lemma_joined_wf(before, call.player);
        }
    }
}

/// Nobody enters anybody else: a call of `join` by one account for another
/// fails, whatever the state and whatever is paid.
pub proof fn lemma_join_for_another_fails(
    session: SessionView,
    caller: AccountId,
    player: AccountId,
    value: u128,
)
    requires
        caller != player,
    ensures
        session.join_error(caller, player, value) == Some(GameError::CallerMustMatchNewPlayer),
{
}

/// A player who has not revealed yet may reveal `(value, nonce)` exactly if
/// the player has submitted the commitment to that pair in the current round.
pub proof fn lemma_reveal_accepted_iff_committed(
    session: SessionView,
    caller: AccountId,
    value: u128,
    nonce: u128,
    commitment: crate::types::Hash,
)
    requires
        session.wf(),
        session.current_round is Some,
        opens(commitment, value, nonce),
        !session.current_round->0.revealed(caller),
    ensures
        session.reveal_error(caller, (value, nonce)) is None
            <==> session.current_round->0.commits.contains((caller, commitment)),
{
    let round = session.current_round->0;
    if round.commits.contains((caller, commitment)) {
        let i = choose|i: int|
            0 <= i < round.commits.len() && round.commits[i] == (caller, commitment);
        lemma_entry_at(round.commits, i);
    }
    if session.reveal_error(caller, (value, nonce)) is None {
        let i = choose|i: int|
            0 <= i < round.commits.len() && (#[trigger] round.commits[i]).0 == caller;
        lemma_entry_at(round.commits, i);
        crate::commitment::lemma_commitment_unique(round.commits[i].1, commitment, value, nonce);
        assert(round.commits[i] == (caller, commitment));
    }
}

/// Against the commitment to one pair, a pair with another digest is turned
/// down as an invalid reveal.
pub proof fn lemma_other_pair_is_invalid(
    session: SessionView,
    caller: AccountId,
    committed: (u128, u128),
    revealed: (u128, u128),
    commitment: crate::types::Hash,
)
    requires
        session.wf(),
        session.current_round is Some,
        session.current_round->0.commits.contains((caller, commitment)),
        opens(commitment, committed.0, committed.1),
        commitment_digest(revealed.0, revealed.1) != commitment_digest(committed.0, committed.1),
    ensures
        session.reveal_error(caller, revealed) == Some(GameError::InvalidReveal),
{
    let round = session.current_round->0;
    let i = choose|i: int| 0 <= i < round.commits.len() && round.commits[i] == (caller, commitment);
    lemma_entry_at(round.commits, i);
}

/// In Rock-Paper-Scissors a player who has not revealed yet may reveal one of
/// the three choices with a nonce exactly if the player has submitted the
/// commitment to them in the current round.
pub proof fn lemma_rock_paper_scissors_reveal(
    session: SessionView,
    caller: AccountId,
    committed: (u128, u128),
    commitment: crate::types::Hash,
)
    requires
        session.wf(),
        session.current_round is Some,
        opens(commitment, committed.0, committed.1),
        !session.current_round->0.revealed(caller),
        committed.0 <= 2,
    ensures
        RockPaperScissors::reveal_error(session, caller, committed) is None
            <==> session.current_round->0.commits.contains((caller, commitment)),
{
    lemma_reveal_accepted_iff_committed(session, caller, committed.0, committed.1, commitment);
}

/// In Public Good a player who has not revealed yet may reveal a contribution
/// of no more than was paid, with a nonce, exactly if the player has submitted
/// the commitment to them in the current round.
pub proof fn lemma_public_good_reveal(
    session: SessionView,
    caller: AccountId,
    committed: (u128, u128),
    commitment: crate::types::Hash,
)
    requires
        session.wf(),
        session.current_round is Some,
        opens(commitment, committed.0, committed.1),
        !session.current_round->0.revealed(caller),
        committed.0 <= PublicGood::stake(session),
    ensures
        PublicGood::reveal_error(session, caller, committed) is None
            <==> session.current_round->0.commits.contains((caller, commitment)),
{
    lemma_reveal_accepted_iff_committed(session, caller, committed.0, committed.1, commitment);
}

/// In the Dictator game a player who has not revealed yet may reveal a pair,
/// which for the dictator names a prize that the game can pay to every
/// player, exactly if the player has submitted the commitment to it in the
/// current round.
pub proof fn lemma_dictator_reveal(
    game: DictatorView,
    caller: AccountId,
    committed: (u128, u128),
    commitment: crate::types::Hash,
    balance: u128,
)
    requires
        game.wf(),
        game.session.current_round is Some,
        opens(commitment, committed.0, committed.1),
        !game.session.current_round->0.revealed(caller),
        game.dictator == Some(caller) ==> committed.0 * game.session.players.len() <= balance,
    ensures
        game.reveal_error(caller, committed, balance) is None
            <==> game.session.current_round->0.commits.contains((caller, commitment)),
{
    lemma_reveal_accepted_iff_committed(game.session, caller, committed.0, committed.1, commitment);
}

/// In each of the three games, against the commitment to one pair a pair
/// with another digest is turned down as an invalid reveal, whatever the
/// pair names and whatever the game holds.
pub proof fn lemma_other_pair_is_invalid_in_games(
    session: SessionView,
    game: DictatorView,
    caller: AccountId,
    committed: (u128, u128),
    revealed: (u128, u128),
    commitment: crate::types::Hash,
    balance: u128,
)
    requires
        opens(commitment, committed.0, committed.1),
        commitment_digest(revealed.0, revealed.1) != commitment_digest(committed.0, committed.1),
    ensures
        session.wf() && session.current_round is Some
            && session.current_round->0.commits.contains((caller, commitment)) ==> {
            &&& RockPaperScissors::reveal_error(session, caller, revealed) == Some(
                GameError::InvalidReveal,
            )
            &&& PublicGood::reveal_error(session, caller, revealed) == Some(
                GameError::InvalidReveal,
            )
        },
        game.wf() && game.session.current_round is Some
            && game.session.current_round->0.commits.contains((caller, commitment))
            ==> game.reveal_error(caller, revealed, balance) == Some(GameError::InvalidReveal),
{
    if session.wf() && session.current_round is Some
        && session.current_round->0.commits.contains((caller, commitment)) {
        lemma_other_pair_is_invalid(session, caller, committed, revealed, commitment);
    }
    if game.wf() && game.session.current_round is Some
        && game.session.current_round->0.commits.contains((caller, commitment)) {
        lemma_other_pair_is_invalid(game.session, caller, committed, revealed, commitment);
    }
}

/// While fewer players have revealed than there are players, the round
/// cannot be resolved; once as many have, it can, and resolving it leaves it
/// `Ended`, last among the rounds played.
pub proof fn lemma_completion_waits_for_reveals(session: SessionView, reward: u128, now: u32)
    requires
        session.wf(),
        session.current_round is Some,
    ensures
        session.current_round->0.reveals.len() < session.players.len()
            ==> session.completion_error() == Some(GameError::NotAllPlayersRevealed),
        session.current_round->0.reveals.len() == session.players.len() ==> {
            &&& session.completion_error() is None
            &&& session.settled(reward, now).rounds.last().status == RoundStatus::Ended
            &&& session.settled(reward, now).rounds.last().id == session.current_round->0.id
        },
{
}

/// In Public Good and in the Dictator game, too, a round cannot be resolved
/// while fewer players have revealed than there are players. Once as many
/// have, a round of Public Good can be resolved if its rewards can be written
/// down, and a round of the Dictator game if the prize is set and the shares
/// can be written down.
pub proof fn lemma_completion_waits_for_reveals_in_games(
    session: SessionView,
    game: DictatorView,
)
    requires
        session.wf(),
        session.current_round is Some,
        game.wf(),
        game.session.current_round is Some,
    ensures
        session.current_round->0.reveals.len() < session.players.len()
            ==> PublicGood::completion_error(session) == Some(GameError::NotAllPlayersRevealed),
        session.current_round->0.reveals.len() == session.players.len() && payable(
            session.current_round->0,
            session.configs,
        ) ==> PublicGood::completion_error(session) is None,
        game.session.current_round->0.reveals.len() < game.session.players.len()
            ==> game.completion_error() == Some(GameError::NotAllPlayersRevealed),
        game.session.current_round->0.reveals.len() == game.session.players.len()
            && game.current_prize is Some && crate::round::total_of(game.payouts()) <= u128::MAX
            ==> game.completion_error() is None,
{
}

/// The ids of the rounds of a session, in the order in which the rounds were
/// opened: those of the rounds played, then that of the current round.
pub open spec fn round_ids(session: SessionView) -> Seq<u8> {
    let played = session.rounds.map_values(|round: crate::round::RoundView| round.id);
    match session.current_round {
        Some(round) => played.push(round.id),
        None => played,
    }
}

/// The ids of the rounds increase strictly, so none is used twice, and the
/// id that the next round will get lies above them all.
pub proof fn lemma_round_ids_increase(session: SessionView)
    requires
        session.wf(),
    ensures
        forall|i: int, j: int|
            0 <= i < j < round_ids(session).len() ==> round_ids(session)[i] < round_ids(session)[j],
        round_ids(session).no_duplicates(),
        forall|i: int|
            0 <= i < round_ids(session).len() ==> round_ids(session)[i] < session.next_round_id,
{
    let ids = round_ids(session);
    assert forall|i: int, j: int| 0 <= i < j < ids.len() implies ids[i] < ids[j] by {
        assert(ids[i] == session.rounds[i].id);
        if j < session.rounds.len() {
            assert(ids[j] == session.rounds[j].id);
        }
    }
    assert forall|i: int| 0 <= i < ids.len() implies ids[i] < session.next_round_id by {
        if i < session.rounds.len() {
            assert(ids[i] == session.rounds[i].id);
        }
    }
}

/// Opening a round only adds its id to those used so far, and raises the id
/// that the next round will get: starting the game does so, and so does
/// resolving a round that is not the last.
pub proof fn lemma_new_round_takes_the_next_id(session: SessionView, reward: u128, now: u32)
    requires
        session.wf(),
    ensures
        session.start_error() is None ==> round_ids(session.started(now)) == round_ids(session).push(
            session.next_round_id,
        ) && session.started(now).next_round_id > session.next_round_id,
        session.current_round is Some && !session.at_last_round() ==> round_ids(
            session.settled(reward, now),
        ) == round_ids(session).push(session.next_round_id) && session.settled(reward, now).next_round_id
            > session.next_round_id,
        session.current_round is Some && session.at_last_round() ==> round_ids(
            session.settled(reward, now),
        ) == round_ids(session) && session.settled(reward, now).next_round_id == session.next_round_id,
{
    if session.start_error() is None {
        assert(round_ids(session.started(now)) =~= round_ids(session).push(session.next_round_id));
    }
    if session.current_round is Some {
        let after = session.settled(reward, now);
        if session.at_last_round() {
            assert(round_ids(after) =~= round_ids(session));
        } else {
            assert(round_ids(after) =~= round_ids(session).push(session.next_round_id));
        }
    }
}

/// One session follows another: the parameters and the creator are the same,
/// no player has left or moved, no round played has been forgotten or
/// changed, and the id that the next round will get has not gone down.
pub open spec fn follows(after: SessionView, before: SessionView) -> bool {
    &&& after.configs == before.configs
    &&& after.created_by == before.created_by
    &&& before.players.is_prefix_of(after.players)
    &&& before.rounds.is_prefix_of(after.rounds)
    &&& after.next_round_id >= before.next_round_id
}

/// Every step of a session leaves a session that follows it: what was fixed
/// when the game was created stays fixed, and the record of the game only
/// grows.
pub proof fn lemma_steps_keep_the_record(
    session: SessionView,
    player: AccountId,
    commitment: crate::types::Hash,
    value: u128,
    reveal: (u128, u128),
    reward: u128,
    now: u32,
)
    requires
        session.wf(),
    ensures
        follows(session.joined(player), session),
        session.start_error() is None ==> follows(session.started(now), session),
        session.current_round is Some ==> {
            &&& follows(session.committed(player, commitment, value), session)
            &&& follows(session.revealed(player, reveal), session)
            &&& follows(session.settled(reward, now), session)
            &&& follows(session.cut_short(reward), session)
        },
        follows(session.ended(), session),
{
}

/// One thing that is done to a session. Every operation of the three games
/// takes one of these steps on its session, with what the call brings, or
/// leaves the session as it was: where it refuses the call, where it only
/// answers a question, and where it changes what the game keeps beside the
/// session.
pub enum Step {
    Join { caller: AccountId, player: AccountId, value: u128 },
    Add { has_role: bool, player: AccountId, value: u128, forwarded: bool },
    Start { now: u32 },
    Commit {
        player: AccountId,
        commitment: crate::types::Hash,
        value: u128,
        rule: crate::data::ContributionRule,
    },
    Reveal { player: AccountId, reveal: (u128, u128) },
    Settle { reward: u128, now: u32 },
    CutShort { reward: u128 },
    End,
    Nothing,
}

/// The session after one step: the step is taken where nothing is in its
/// way, and else the session is as it was.
pub open spec fn after_step(session: SessionView, step: Step) -> SessionView {
    match step {
        Step::Join { caller, player, value } => if session.join_error(caller, player, value)
            is None {
            session.joined(player)
        } else {
            session
        },
        Step::Add { has_role, player, value, forwarded } => if session.add_error(
            has_role,
            player,
            value,
            forwarded,
        ) is None {
            session.joined(player)
        } else {
            session
        },
        Step::Start { now } => if session.start_error() is None {
            session.started(now)
        } else {
            session
        },
        Step::Commit { player, commitment, value, rule } => if session.commit_error(
            player,
            value,
            rule,
        ) is None {
            session.committed(player, commitment, value)
        } else {
            session
        },
        Step::Reveal { player, reveal } => if session.reveal_error(player, reveal) is None {
            session.revealed(player, reveal)
        } else {
            session
        },
        Step::Settle { reward, now } => if session.current_round is Some {
            session.settled(reward, now)
        } else {
            session
        },
        Step::CutShort { reward } => if session.current_round is Some {
            session.cut_short(reward)
        } else {
            session
        },
        Step::End => if session.end_error() is None {
            session.ended()
        } else {
            session
        },
        Step::Nothing => session,
    }
}

/// The session after a sequence of steps.
pub open spec fn after_steps(session: SessionView, steps: Seq<Step>) -> SessionView
    decreases steps.len(),
{
    if steps.len() == 0 {
        session
    } else {
        after_step(after_steps(session, steps.drop_last()), steps.last())
    }
}

/// One step keeps the invariant and leaves a session that follows the one
/// before it.
pub proof fn lemma_a_step_keeps_the_record(session: SessionView, step: Step)
    requires
        session.wf(),
    ensures
        after_step(session, step).wf(),
        follows(after_step(session, step), session),
{
    match step {
        Step::Join { caller, player, value } => {
            if session.join_error(caller, player, value) is None {
                lemma_joined_wf(session, player);
            }
        },
        Step::Add { has_role, player, value, forwarded } => {
            if session.add_error(has_role, player, value, forwarded) is None {
                lemma_joined_wf(session, player);
            }
        },
        Step::Start { now } => {
            if session.start_error() is None {
                crate::data::lemma_started_wf(session, now);
            }
        },
        Step::Commit { player, commitment, value, rule } => {
            if session.commit_error(player, value, rule) is None {
                crate::data::lemma_committed_wf(session, player, commitment, value, rule);
            }
        },
        Step::Reveal { player, reveal } => {
            if session.reveal_error(player, reveal) is None {
                crate::data::lemma_revealed_wf(session, player, reveal);
            }
        },
        Step::Settle { reward, now } => {
            if session.current_round is Some {
                crate::data::lemma_settled_wf(session, reward, now);
            }
        },
        Step::CutShort { reward } => {
            if session.current_round is Some {
                crate::data::lemma_settled_wf(session, reward, 0);
            }
        },
        Step::End => {
            if session.end_error() is None {
                crate::data::lemma_ended_wf(session);
            }
        },
        Step::Nothing => {},
    }
}

/// Whatever is done to a session, in whatever order and however often: the
/// invariant holds, the parameters are those that the game was created with,
/// and so is the creator; no player has left, and no round played is lost.
pub proof fn lemma_any_steps_keep_the_record(session: SessionView, steps: Seq<Step>)
    requires
        session.wf(),
    ensures
        after_steps(session, steps).wf(),
        follows(after_steps(session, steps), session),
        after_steps(session, steps).configs == session.configs,
    decreases steps.len(),
{
    if steps.len() > 0 {
        let before = after_steps(session, steps.drop_last());
        lemma_any_steps_keep_the_record(session, steps.drop_last());
        lemma_a_step_keeps_the_record(before, steps.last());
        let after = after_step(before, steps.last());
        assert(session.players.is_prefix_of(after.players)) by {
            assert(session.players =~= after.players.subrange(0, session.players.len() as int));
        }
        assert(session.rounds.is_prefix_of(after.rounds)) by {
            assert(session.rounds =~= after.rounds.subrange(0, session.rounds.len() as int));
        }
    }
}

/// The parameters of a game are those that it was created with, whatever was
/// done to it since, and the invariant holds of its session.
pub proof fn lemma_configs_are_those_of_creation(
    creator: AccountId,
    configs: crate::types::GameConfigs,
    steps: Seq<Step>,
)
    requires
        configs.valid(),
    ensures
        after_steps(SessionView::created(creator, configs), steps).configs == configs,
        after_steps(SessionView::created(creator, configs), steps).created_by == creator,
        after_steps(SessionView::created(creator, configs), steps).wf(),
{
    lemma_any_steps_keep_the_record(SessionView::created(creator, configs), steps);
}

/// Within a round, what was paid in only grows: a commitment adds its
/// payment to the total, and a reveal leaves the total as it is.
pub proof fn lemma_contributions_only_grow(
    session: SessionView,
    player: AccountId,
    commitment: crate::types::Hash,
    value: u128,
    reveal: (u128, u128),
    rule: crate::data::ContributionRule,
)
    requires
        session.wf(),
        session.current_round is Some,
    ensures
        session.commit_error(player, value, rule) is None ==> session.committed(
            player,
            commitment,
            value,
        ).current_round->0.total_contribution == session.current_round->0.total_contribution
            + value,
        session.revealed(player, reveal).current_round->0.total_contribution
            == session.current_round->0.total_contribution,
{
}

/// How far a game has come.
pub open spec fn progress(status: GameStatus) -> int {
    match status {
        GameStatus::Ready => 0,
        GameStatus::OnGoing => 1,
        GameStatus::Ended => 2,
    }
}

/// The status of a game only moves forward, one step at a time: no step of a
/// session goes back, and none skips a status.
pub proof fn lemma_status_moves_forward(
    session: SessionView,
    player: AccountId,
    commitment: crate::types::Hash,
    value: u128,
    reveal: (u128, u128),
    reward: u128,
    now: u32,
)
    requires
        session.wf(),
    ensures
        session.joined(player).status == session.status,
        session.start_error() is None ==> progress(session.started(now).status) == progress(
            session.status,
        ) + 1,
        session.current_round is Some ==> session.committed(player, commitment, value).status
            == session.status && session.revealed(player, reveal).status == session.status,
        session.current_round is Some ==> progress(session.status) <= progress(
            session.settled(reward, now).status,
        ) <= progress(session.status) + 1,
        session.end_error() is None ==> progress(session.ended().status) == progress(
            session.status,
        ) + 1,
        session.current_round is Some ==> progress(session.cut_short(reward).status) == progress(
            session.status,
        ) + 1,
{
}

} // verus!
