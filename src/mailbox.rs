//! The state shared by an entangled pair of mailbox endpoints.
//!
//! One end belongs to the game (logic) thread and sends `G` messages; the
//! other belongs to the render thread and sends `R` messages. Each direction
//! is a first-in first-out queue, and each end can be closed (dropped).
use std::collections::VecDeque;
use vstd::prelude::*;

verus! {

/// Failure of a mailbox operation.
#[derive(Debug, Clone, Copy, PartialEq, Eq, Structural)]
pub enum MailboxError {
    /// The peer endpoint has been dropped and nothing is left to receive.
    Disconnected,
}

/// Shared state of two entangled mailbox endpoints.
pub struct Mailbox<G, R> {
    to_render: VecDeque<G>,
    to_game: VecDeque<R>,
    game_open: bool,
    render_open: bool,
}

/// Mathematical model of a mailbox pair.
pub struct MailboxView<G, R> {
    /// Messages sent by the game end and not yet received, oldest first.
    pub to_render: Seq<G>,
    /// Messages sent by the render end and not yet received, oldest first.
    pub to_game: Seq<R>,
    /// The game end has not been dropped.
    pub game_open: bool,
    /// The render end has not been dropped.
    pub render_open: bool,
}

impl<G, R> View for Mailbox<G, R> {
    type V = MailboxView<G, R>;

    closed spec fn view(&self) -> MailboxView<G, R> {
        MailboxView {
            to_render: self.to_render@,
            to_game: self.to_game@,
            game_open: self.game_open,
            render_open: self.render_open,
        }
    }
}

/// The game end sends `m`: queued when the render end is open, else refused.
pub open spec fn game_send<G, R>(v: MailboxView<G, R>, m: G) -> MailboxView<G, R> {
    if v.render_open {
        MailboxView { to_render: v.to_render.push(m), ..v }
    } else {
        v
    }
}

/// The render end sends `m`: queued when the game end is open, else refused.
pub open spec fn render_send<G, R>(v: MailboxView<G, R>, m: R) -> MailboxView<G, R> {
    if v.game_open {
        MailboxView { to_game: v.to_game.push(m), ..v }
    } else {
        v
    }
}

/// The render end takes the oldest message meant for it, if any.
pub open spec fn render_take<G, R>(v: MailboxView<G, R>) -> MailboxView<G, R> {
    if v.to_render.len() > 0 {
        MailboxView { to_render: v.to_render.drop_first(), ..v }
    } else {
        v
    }
}

/// The game end takes the oldest message meant for it, if any.
pub open spec fn game_take<G, R>(v: MailboxView<G, R>) -> MailboxView<G, R> {
    if v.to_game.len() > 0 {
        MailboxView { to_game: v.to_game.drop_first(), ..v }
    } else {
        v
    }
}

/// What a non-blocking receive hands back for queue `q` when the sending
/// end is open or not.
pub open spec fn received<T>(q: Seq<T>, sender_open: bool) -> Result<Option<T>, MailboxError> {
    if q.len() > 0 {
        Ok(Some(q[0]))
    } else if sender_open {
        Ok(None)
    } else {
        Err(MailboxError::Disconnected)
    }
}

impl<G, R> Mailbox<G, R> {
    /// A fresh pair: both ends open, nothing in flight.
    pub fn new_entangled_pair() -> (r: Mailbox<G, R>)
        ensures
            r@.to_render == Seq::<G>::empty(),
            r@.to_game == Seq::<R>::empty(),
            r@.game_open,
            r@.render_open,
    {
        Mailbox {
            to_render: VecDeque::new(),
            to_game: VecDeque::new(),
            game_open: true,
            render_open: true,
        }
    }

    /// Non-blocking send from the game end. Fails, leaving the pair as it
    /// was, when the render end has been dropped.
    pub fn send_to_render(&mut self, m: G) -> (r: Result<(), MailboxError>)
        ensures
            final(self)@ == game_send(old(self)@, m),
            r is Ok <==> old(self)@.render_open,
            r is Err ==> r == Err::<(), MailboxError>(MailboxError::Disconnected),
    {
        if self.render_open {
            self.to_render.push_back(m);
            Ok(())
        } else {
            Err(MailboxError::Disconnected)
        }
    }

    /// Non-blocking send from the render end. Fails, leaving the pair as it
    /// was, when the game end has been dropped.
    pub fn send_to_game(&mut self, m: R) -> (r: Result<(), MailboxError>)
        ensures
            final(self)@ == render_send(old(self)@, m),
            r is Ok <==> old(self)@.game_open,
            r is Err ==> r == Err::<(), MailboxError>(MailboxError::Disconnected),
    {
        if self.game_open {
            self.to_game.push_back(m);
            Ok(())
        } else {
            Err(MailboxError::Disconnected)
        }
    }

    /// Non-blocking receive at the render end: the oldest message sent by the
    /// game end, `None` when there is none yet, or `Disconnected` when there is
    /// none and the game end has been dropped.
    pub fn recv_at_render(&mut self) -> (r: Result<Option<G>, MailboxError>)
        ensures
            final(self)@ == render_take(old(self)@),
            r == received(old(self)@.to_render, old(self)@.game_open),
    {
        match self.to_render.pop_front() {
            Some(m) => Ok(Some(m)),
            None => {
                if self.game_open {
                    Ok(None)
                } else {
                    Err(MailboxError::Disconnected)
                }
            },
        }
    }

    /// Non-blocking receive at the game end: the oldest message sent by the
    /// render end, `None` when there is none yet, or `Disconnected` when there
    /// is none and the render end has been dropped.
    pub fn recv_at_game(&mut self) -> (r: Result<Option<R>, MailboxError>)
        ensures
            final(self)@ == game_take(old(self)@),
            r == received(old(self)@.to_game, old(self)@.render_open),
    {
        match self.to_game.pop_front() {
            Some(m) => Ok(Some(m)),
            None => {
                if self.render_open {
                    Ok(None)
                } else {
                    Err(MailboxError::Disconnected)
                }
            },
        }
    }

    /// Drops the game end.
    pub fn close_game_end(&mut self)
        ensures
            final(self)@ == (MailboxView { game_open: false, ..old(self)@ }),
    {
        self.game_open = false;
    }

    /// Drops the render end.
    pub fn close_render_end(&mut self)
        ensures
            final(self)@ == (MailboxView { render_open: false, ..old(self)@ }),
    {
        self.render_open = false;
    }

    /// Whether the render end is still open.
    pub fn render_open(&self) -> (r: bool)
        ensures
            r == self@.render_open,
    {
        self.render_open
    }

    /// Whether the game end is still open.
    pub fn game_open(&self) -> (r: bool)
        ensures
            r == self@.game_open,
    {
        self.game_open
    }
}

/// One exchange: the game end sends `q`, the render end takes it and answers
/// `a`, and the game end takes the answer.
pub open spec fn exchange<G, R>(v: MailboxView<G, R>, q: G, a: R) -> MailboxView<G, R> {
    game_take(render_send(render_take(game_send(v, q)), a))
}

/// The pair after one exchange for each request of `qs`, in order, the `i`th
/// answered with `answers[i]`.
pub open spec fn exchanges<G, R>(v: MailboxView<G, R>, qs: Seq<G>, answers: Seq<R>) -> MailboxView<
    G,
    R,
>
    decreases qs.len(),
{
    if qs.len() == 0 || answers.len() == 0 {
        v
    } else {
        exchange(exchanges(v, qs.drop_last(), answers.drop_last()), qs.last(), answers.last())
    }
}

/// What the render end receives in each exchange of `exchanges`.
pub open spec fn requests_seen<G, R>(v: MailboxView<G, R>, qs: Seq<G>, answers: Seq<R>) -> Seq<
    Result<Option<G>, MailboxError>,
>
    decreases qs.len(),
{
    if qs.len() == 0 || answers.len() == 0 {
        Seq::empty()
    } else {
        let w = exchanges(v, qs.drop_last(), answers.drop_last());
        requests_seen(v, qs.drop_last(), answers.drop_last()).push(
            received(game_send(w, qs.last()).to_render, w.game_open),
        )
    }
}

/// What the game end receives in each exchange of `exchanges`.
pub open spec fn replies_seen<G, R>(v: MailboxView<G, R>, qs: Seq<G>, answers: Seq<R>) -> Seq<
    Result<Option<R>, MailboxError>,
>
    decreases qs.len(),
{
    if qs.len() == 0 || answers.len() == 0 {
        Seq::empty()
    } else {
        let w = exchanges(v, qs.drop_last(), answers.drop_last());
        let u = render_send(render_take(game_send(w, qs.last())), answers.last());
        replies_seen(v, qs.drop_last(), answers.drop_last()).push(
            received(u.to_game, u.render_open),
        )
    }
}

/// No reply is lost while both ends live: when each of `n` requests is
/// answered by the render end, the render end receives the requests and the
/// game end the `n` answers, each exactly once and in the order sent, and
/// the pair is left as it was.
pub proof fn lemma_exchanges_keep_replies<G, R>(v: MailboxView<G, R>, qs: Seq<G>, answers: Seq<R>)
    requires
        v.game_open,
        v.render_open,
        v.to_render.len() == 0,
        v.to_game.len() == 0,
        qs.len() == answers.len(),
    ensures
        exchanges(v, qs, answers) == v,
        requests_seen(v, qs, answers) == qs.map_values(
            |q: G| Ok::<Option<G>, MailboxError>(Some(q)),
        ),
        replies_seen(v, qs, answers) == answers.map_values(
            |a: R| Ok::<Option<R>, MailboxError>(Some(a)),
        ),
    decreases qs.len(),
{
    if qs.len() > 0 {
        lemma_exchanges_keep_replies(v, qs.drop_last(), answers.drop_last());
        let w = exchanges(v, qs.drop_last(), answers.drop_last());
        let s1 = game_send(w, qs.last());
        assert(s1.to_render =~= seq![qs.last()]);
        let s2 = render_take(s1);
        assert(s2.to_render =~= Seq::<G>::empty());
        let s3 = render_send(s2, answers.last());
        assert(s3.to_game =~= seq![answers.last()]);
        let s4 = game_take(s3);
        assert(s4.to_game =~= Seq::<R>::empty());
        assert(s4.to_render =~= v.to_render);
        assert(s4.to_game =~= v.to_game);
        assert(s4 == v);
        assert(requests_seen(v, qs, answers) =~= qs.map_values(
            |q: G| Ok::<Option<G>, MailboxError>(Some(q)),
        ));
        assert(replies_seen(v, qs, answers) =~= answers.map_values(
            |a: R| Ok::<Option<R>, MailboxError>(Some(a)),
        ));
    }
}

} // verus!
