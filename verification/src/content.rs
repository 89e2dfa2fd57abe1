//! The download queue: which game is installing, which wait, which are done, and the
//! decisions the content manager takes on it.

use crate::text::str_eq;
use vstd::prelude::*;

verus! {

/// A game waiting for, or going through, installation.
pub struct QueuedGame {
    pub offer_id: String,
    pub build_id: String,
    pub path: String,
    pub slug: String,
    pub wine_prefix: Option<String>,
}

impl Clone for QueuedGame {
    fn clone(&self) -> (r: Self)
        ensures
            r == *self,
    {
        QueuedGame {
            offer_id: self.offer_id.clone(),
            build_id: self.build_id.clone(),
            path: self.path.clone(),
            slug: self.slug.clone(),
            wine_prefix: match &self.wine_prefix {
                Some(p) => Some(p.clone()),
                None => None,
            },
        }
    }
}

impl Default for QueuedGame {
    fn default() -> (r: Self)
        ensures
            r.offer_id@ == Seq::<char>::empty(),
            r.build_id@ == Seq::<char>::empty(),
            r.path@ == Seq::<char>::empty(),
            r.slug@ == Seq::<char>::empty(),
            r.wine_prefix is None,
    {
        QueuedGame {
            offer_id: String::new(),
            build_id: String::new(),
            path: String::new(),
            slug: String::new(),
            wine_prefix: None,
        }
    }
}

impl QueuedGame {
    pub fn offer_id(&self) -> (r: &String)
        ensures
            r == &self.offer_id,
    {
        &self.offer_id
    }

    pub fn build_id(&self) -> (r: &String)
        ensures
            r == &self.build_id,
    {
        &self.build_id
    }

    pub fn path(&self) -> (r: &String)
        ensures
            r == &self.path,
    {
        &self.path
    }

    pub fn slug(&self) -> (r: &String)
        ensures
            r == &self.slug,
    {
        &self.slug
    }

    pub fn wine_prefix(&self) -> (r: &Option<String>)
        ensures
            r == &self.wine_prefix,
    {
        &self.wine_prefix
    }
}

/// Games that are not the given offer.
pub open spec fn other_offer(offer_id: Seq<char>) -> spec_fn(QueuedGame) -> bool {
    |g: QueuedGame| g.offer_id@ != offer_id
}

/// The games of a queue whose offer id is not `offer_id`, in their order.
fn without_offer(games: &Vec<QueuedGame>, offer_id: &str) -> (r: Vec<QueuedGame>)
    ensures
        r@ == games@.filter(other_offer(offer_id@)),
{
    let ghost p = other_offer(offer_id@);
    let mut r: Vec<QueuedGame> = Vec::new();
    let mut i: usize = 0;
    while i < games.len()
        invariant
            i <= games.len(),
            p == other_offer(offer_id@),
            r@ == games@.take(i as int).filter(p),
        decreases games.len() - i,
    {
        proof {
            assert(games@.take(i as int + 1) =~= games@.take(i as int).push(games@[i as int]));
            games@.take(i as int).lemma_filter_push(games@[i as int], p);
        }
        if !str_eq(games[i].offer_id.as_str(), offer_id) {
            r.push(games[i].clone());
        }
        i = i + 1;
    }
    assert(games@.take(games.len() as int) =~= games@);
    r
}

/// The first queued game of the given offer.
fn position_of(games: &Vec<QueuedGame>, offer_id: &str) -> (r: Option<usize>)
    ensures
        match r {
            Some(i) => i < games.len() && games@[i as int].offer_id@ == offer_id@ && forall|j: int|
                0 <= j < i ==> games@[j].offer_id@ != offer_id@,
            None => forall|j: int| 0 <= j < games.len() ==> games@[j].offer_id@ != offer_id@,
        },
{
    let mut i: usize = 0;
    while i < games.len()
        invariant
            i <= games.len(),
            forall|j: int| 0 <= j < i ==> games@[j].offer_id@ != offer_id@,
        decreases games.len() - i,
    {
        if str_eq(games[i].offer_id.as_str(), offer_id) {
            return Some(i);
        }
        i = i + 1;
    }
    None
}

/// The state of the downloads: the game installing now (or paused), the games waiting
/// in order, and those finished.
pub struct DownloadQueue {
    pub current: Option<QueuedGame>,
    pub paused: bool,
    pub queued: Vec<QueuedGame>,
    pub completed: Vec<QueuedGame>,
}

impl Default for DownloadQueue {
    fn default() -> (r: Self)
        ensures
            r.current is None,
            !r.paused,
            r.queued@ == Seq::<QueuedGame>::empty(),
            r.completed@ == Seq::<QueuedGame>::empty(),
    {
        DownloadQueue { current: None, paused: false, queued: Vec::new(), completed: Vec::new() }
    }
}

/// The games waiting after `push_to_current`: the one that was current goes to the back.
pub open spec fn requeued(queued: Seq<QueuedGame>, current: Option<QueuedGame>) -> Seq<
    QueuedGame,
> {
    match current {
        Some(c) => queued.push(c),
        None => queued,
    }
}

/// Making a game current leaves the games that were waiting in their places at the front,
/// and puts the game that was current, if any, after all of them.
pub proof fn lemma_requeued_order(queued: Seq<QueuedGame>, current: Option<QueuedGame>)
    ensures
        requeued(queued, current).take(queued.len() as int) == queued,
        requeued(queued, current).len() == queued.len() + if current is Some {
            1int
        } else {
            0int
        },
        current matches Some(c) ==> requeued(queued, current)[queued.len() as int] == c,
{
    assert(requeued(queued, current).take(queued.len() as int) =~= queued);
}

/// Two queues hold the same games in the same places.
pub open spec fn same_state(a: DownloadQueue, b: DownloadQueue) -> bool {
    &&& a.current == b.current
    &&& a.paused == b.paused
    &&& a.queued@ == b.queued@
    &&& a.completed@ == b.completed@
}

impl DownloadQueue {
    pub fn current(&self) -> (r: &Option<QueuedGame>)
        ensures
            r == &self.current,
    {
        &self.current
    }

    pub fn paused(&self) -> (r: bool)
        ensures
            r == self.paused,
    {
        self.paused
    }

    pub fn queued(&self) -> (r: &Vec<QueuedGame>)
        ensures
            r == &self.queued,
    {
        &self.queued
    }

    pub fn completed(&self) -> (r: &Vec<QueuedGame>)
        ensures
            r == &self.completed,
    {
        &self.completed
    }

    /// Makes `game` the current one; the game that was current waits at the back.
    pub fn push_to_current(&mut self, game: QueuedGame)
        ensures
            final(self).current == Some(game),
            final(self).queued@ == requeued(old(self).queued@, old(self).current),
            final(self).queued@.take(old(self).queued.len() as int) == old(self).queued@,
            final(self).queued.len() == old(self).queued.len() + if old(self).current is Some {
                1int
            } else {
                0int
            },
            old(self).current matches Some(c) ==> final(self).queued@.last() == c,
            final(self).completed@ == old(self).completed@,
            final(self).paused == old(self).paused,
    {
        if let Some(current) = self.current.take() {
            self.queued.push(current);
        }
        self.current = Some(game);
    }

    /// Takes the game that has waited longest.
    fn pop_next(&mut self) -> (r: Option<QueuedGame>)
        ensures
            old(self).queued.len() == 0 ==> r is None && final(self).queued@ == old(self).queued@,
            old(self).queued.len() > 0 ==> r == Some(old(self).queued@[0])
                && final(self).queued@ == old(self).queued@.drop_first(),
            final(self).current == old(self).current,
            final(self).completed@ == old(self).completed@,
            final(self).paused == old(self).paused,
    {
        if self.queued.len() == 0 {
            None
        } else {
            let g = self.queued.remove(0);
            assert(old(self).queued@.remove(0) =~= old(self).queued@.drop_first());
            Some(g)
        }
    }

    /// A new install request. When nothing is installing, waiting or downloading, the game
    /// becomes current and `true` says to start it; otherwise it waits at the back.
    pub fn add_install(&mut self, game: QueuedGame, downloading: bool) -> (start: bool)
        ensures
            start == (old(self).queued.len() == 0 && old(self).current is None && !downloading),
            start ==> final(self).current == Some(game) && final(self).queued@ == old(
                self,
            ).queued@,
            !start ==> final(self).current == old(self).current && final(self).queued@ == old(
                self,
            ).queued@.push(game),
            final(self).completed@ == old(self).completed@,
            final(self).paused == old(self).paused,
    {
        if self.queued.len() == 0 && self.current.is_none() && !downloading {
            self.current = Some(game);
            true
        } else {
            self.queued.push(game);
            false
        }
    }

    /// Starts `game` at once (after whatever was downloading has been stopped).
    pub fn install_now(&mut self, game: QueuedGame)
        ensures
            final(self).current == Some(game),
            final(self).queued@ == old(self).queued@,
            final(self).completed@ == old(self).completed@,
            final(self).paused == old(self).paused,
    {
        self.current = Some(game);
    }

    /// Forgets every trace of an offer: as the current game, in the queue and among the
    /// finished ones; the queue is no longer paused.
    pub fn cancel_install(&mut self, offer_id: &str)
        ensures
            final(self).current == (match old(self).current {
                Some(g) => if g.offer_id@ == offer_id@ {
                    None
                } else {
                    Some(g)
                },
                None => None,
            }),
            final(self).queued@ == old(self).queued@.filter(other_offer(offer_id@)),
            final(self).completed@ == old(self).completed@.filter(other_offer(offer_id@)),
            !final(self).paused,
            forall|i: int|
                0 <= i < final(self).queued.len() ==> (#[trigger] final(self).queued@[i]).offer_id@
                    != offer_id@,
            forall|i: int|
                0 <= i < final(self).completed.len() ==> (
                #[trigger] final(self).completed@[i]).offer_id@ != offer_id@,
    {
        let matches = match &self.current {
            Some(g) => str_eq(g.offer_id.as_str(), offer_id),
            None => false,
        };
        if matches {
            self.current = None;
        }
        let q = without_offer(&self.queued, offer_id);
        let c = without_offer(&self.completed, offer_id);
        self.queued = q;
        self.completed = c;
        self.paused = false;
        proof {
            let p = other_offer(offer_id@);
            assert forall|i: int| 0 <= i < self.queued.len() implies (
            #[trigger] self.queued@[i]).offer_id@ != offer_id@ by {
                old(self).queued@.lemma_filter_pred(p, i);
            }
            assert forall|i: int| 0 <= i < self.completed.len() implies (
            #[trigger] self.completed@[i]).offer_id@ != offer_id@ by {
                old(self).completed@.lemma_filter_pred(p, i);
            }
        }
    }

    /// Pauses the download of `offer_id` when it is the one downloading; `true` says to
    /// stop that download.
    pub fn pause_install(&mut self, downloading: Option<&str>, offer_id: &str) -> (stop: bool)
        ensures
            stop == (downloading matches Some(d) && d@ == offer_id@),
            final(self).paused == (stop || old(self).paused),
            final(self).current == old(self).current,
            final(self).queued@ == old(self).queued@,
            final(self).completed@ == old(self).completed@,
    {
        let stop = match downloading {
            Some(d) => str_eq(d, offer_id),
            None => false,
        };
        if stop {
            self.paused = true;
        }
        stop
    }

    /// Moves the first waiting game of `offer_id` to the top: it becomes current and the
    /// game that was current waits first. Returns the game to start, or `None` when the
    /// offer is already current or not waiting (nothing changes then).
    pub fn move_install_to_top(&mut self, offer_id: &str) -> (r: Option<QueuedGame>)
        ensures
            (old(self).current matches Some(g) && g.offer_id@ == offer_id@) ==> r is None
                && same_state(*final(self), *old(self)),
            !(old(self).current matches Some(g) && g.offer_id@ == offer_id@) ==> match r {
                None => same_state(*final(self), *old(self)) && forall|j: int|
                    0 <= j < old(self).queued.len() ==> old(self).queued@[j].offer_id@
                        != offer_id@,
                Some(game) => exists|i: int|
                    0 <= i < old(self).queued.len() && old(self).queued@[i] == game
                        && game.offer_id@ == offer_id@ && (forall|j: int|
                        0 <= j < i ==> old(self).queued@[j].offer_id@ != offer_id@)
                        && final(self).queued@ == (match old(self).current {
                        Some(c) => seq![c] + old(self).queued@.remove(i),
                        None => old(self).queued@.remove(i),
                    }) && final(self).current == Some(game),
            },
            final(self).completed@ == old(self).completed@,
            final(self).paused == old(self).paused,
    {
        let at_top = match &self.current {
            Some(g) => str_eq(g.offer_id.as_str(), offer_id),
            None => false,
        };
        if at_top {
            return None;
        }
        let index = match position_of(&self.queued, offer_id) {
            Some(i) => i,
            None => return None,
        };
        let ghost q0 = self.queued@;
        let game = self.queued.remove(index);
        if let Some(current) = self.current.take() {
            self.queued.insert(0, current);
            assert(self.queued@ =~= seq![current] + q0.remove(index as int));
        }
        self.current = Some(game.clone());
        Some(game)
    }

    /// The current download has finished: its game joins the finished ones and the queue
    /// is no longer paused.
    pub fn finish_current(&mut self) -> (r: QueuedGame)
        requires
            old(self).current is Some,
        ensures
            Some(r) == old(self).current,
            final(self).current is None,
            final(self).completed@ == old(self).completed@.push(r),
            final(self).queued@ == old(self).queued@,
            !final(self).paused,
    {
        let finished = self.current.take().unwrap();
        self.completed.push(finished.clone());
        self.paused = false;
        finished
    }

    /// With nothing downloading: the game to install next, if any. Unless paused, the game
    /// that has waited longest becomes current; with none waiting, the current game (if
    /// any) is resumed.
    pub fn next_install(&mut self) -> (r: Option<QueuedGame>)
        ensures
            old(self).paused ==> r is None && same_state(*final(self), *old(self)),
            !old(self).paused && old(self).queued.len() > 0 ==> r == Some(old(self).queued@[0])
                && final(self).current == r && final(self).queued@ == old(
                self,
            ).queued@.drop_first(),
            !old(self).paused && old(self).queued.len() == 0 ==> r == old(self).current
                && same_state(*final(self), *old(self)),
            final(self).completed@ == old(self).completed@,
            final(self).paused == old(self).paused,
    {
        if self.paused {
            return None;
        }
        match self.pop_next() {
            Some(game) => {
                self.current = Some(game.clone());
                Some(game)
            },
            None => match &self.current {
                Some(c) => Some(c.clone()),
                None => None,
            },
        }
    }
}

} // verus!
