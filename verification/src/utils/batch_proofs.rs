//! What holds of every batch lookup: no file is lost or answered twice,
//! every answer brings the lookup nearer to its end, and each show is
//! searched for once.

use crate::text::lowercased;
use crate::model::MediaType;
use crate::utils::tmdb::{
    failures, group_with, no_key_text, no_results_text, no_title_text, BatchFileInfoView,
    BatchMatcherView, EpisodeDetailsView, OutcomeView, ReplyView, ShowGroupView, Stage,
};
use vstd::multiset::Multiset;
use vstd::prelude::*;
use vstd::seq_lib::lemma_multiset_commutative;

verus! {

/// The indices of `files`, each as often as it occurs.
pub open spec fn file_indices(files: Seq<BatchFileInfoView>) -> Multiset<usize> {
    files.map_values(|f: BatchFileInfoView| f.index).to_multiset()
}

/// The indices of `results`, each as often as it occurs.
pub open spec fn result_indices(results: Seq<OutcomeView>) -> Multiset<usize> {
    results.map_values(|o: OutcomeView| o.0).to_multiset()
}

/// The indices of the episodes in the groups from `from` on.
pub open spec fn group_indices(shows: Seq<ShowGroupView>, from: int) -> Multiset<usize>
    decreases shows.len() - from,
{
    if from < 0 || from >= shows.len() {
        Multiset::empty()
    } else {
        file_indices(shows[from].episodes).add(group_indices(shows, from + 1))
    }
}

/// The requests that the groups from `from` on can still take: two for
/// each show and two for each episode.
pub open spec fn group_work(shows: Seq<ShowGroupView>, from: int) -> int
    decreases shows.len() - from,
{
    if from < 0 || from >= shows.len() {
        0
    } else {
        2 + 2 * shows[from].episodes.len() + group_work(shows, from + 1)
    }
}

impl BatchMatcherView {
    /// No group is empty, and no list is longer than a machine can hold.
    pub open spec fn well_sized(self) -> bool {
        &&& self.movies.len() <= usize::MAX
        &&& self.shows.len() <= usize::MAX
        &&& forall|g: int|
            0 <= g < self.shows.len() ==> 0 < (#[trigger] self.shows[g]).episodes.len()
                <= usize::MAX
    }

    /// The cursors lie within the lists and fit the stage, and the lists
    /// are well sized.
    pub open spec fn well_formed(self) -> bool {
        &&& self.well_sized()
        &&& self.movie_at <= self.movies.len()
        &&& self.show_at <= self.shows.len()
        &&& match self.stage {
            Stage::SearchMovie | Stage::MovieDetails => {
                &&& self.movie_at < self.movies.len()
                &&& self.show_at == 0
                &&& self.episode_at == 0
            },
            Stage::MoviePause => self.show_at == 0 && self.episode_at == 0,
            Stage::SearchShow | Stage::ShowDetails => {
                &&& self.movie_at == self.movies.len()
                &&& self.show_at < self.shows.len()
                &&& self.episode_at == 0
            },
            Stage::Episodes => {
                &&& self.movie_at == self.movies.len()
                &&& self.show_at < self.shows.len()
                &&& self.episode_at < self.group().len()
            },
            Stage::EpisodePause => {
                &&& self.movie_at == self.movies.len()
                &&& self.show_at < self.shows.len()
                &&& 0 < self.episode_at <= self.group().len()
            },
            Stage::Done => {
                &&& self.movie_at == self.movies.len()
                &&& self.show_at == self.shows.len()
                &&& self.episode_at == 0
            },
        }
    }

    /// The indices of the files that have no result yet.
    pub open spec fn pending(self) -> Multiset<usize> {
        file_indices(self.movies.skip(self.movie_at as int)).add(
            if self.show_at < self.shows.len() {
                file_indices(self.group().skip(self.episode_at as int)).add(
                    group_indices(self.shows, self.show_at + 1),
                )
            } else {
                Multiset::empty()
            },
        )
    }

    /// The indices of all files of the lookup: those with a result and
    /// those without.
    pub open spec fn accounted(self) -> Multiset<usize> {
        result_indices(self.results).add(self.pending())
    }

    /// A bound on the number of answers that the lookup can still take.
    pub open spec fn work(self) -> int {
        3 * (self.movies.len() - self.movie_at) + group_work(self.shows, self.show_at as int) - 2
            * self.episode_at + match self.stage {
            Stage::SearchMovie | Stage::SearchShow | Stage::Done => 0int,
            Stage::MovieDetails | Stage::ShowDetails | Stage::EpisodePause => -1,
            Stage::MoviePause => 1,
            Stage::Episodes => -2,
        }
    }

    /// The lookup after the answers `replies`, given one after the other;
    /// an answer that is not accepted is passed over.
    pub open spec fn run(self, replies: Seq<ReplyView>) -> BatchMatcherView
        decreases replies.len(),
    {
        if replies.len() == 0 {
            self
        } else if self.accepts(replies[0]) {
            self.next(replies[0]).run(replies.skip(1))
        } else {
            self.run(replies.skip(1))
        }
    }

    /// How many of the answers `replies` are taken at `stage`, which is
    /// how many requests of that stage were made.
    pub open spec fn taken_at(self, stage: Stage, replies: Seq<ReplyView>) -> nat
        decreases replies.len(),
    {
        if replies.len() == 0 {
            0
        } else if self.accepts(replies[0]) {
            let here: nat = if self.stage == stage {
                1
            } else {
                0
            };
            here + self.next(replies[0]).taken_at(stage, replies.skip(1))
        } else {
            self.taken_at(stage, replies.skip(1))
        }
    }

    /// How many of the answers `replies` are taken.
    pub open spec fn taken(self, replies: Seq<ReplyView>) -> nat
        decreases replies.len(),
    {
        if replies.len() == 0 {
            0
        } else if self.accepts(replies[0]) {
            1 + self.next(replies[0]).taken(replies.skip(1))
        } else {
            self.taken(replies.skip(1))
        }
    }

    /// The shows that are still to be searched for.
    pub open spec fn shows_to_search(self) -> int {
        self.shows.len() - self.show_at - match self.stage {
            Stage::ShowDetails | Stage::Episodes | Stage::EpisodePause => 1int,
            _ => 0,
        }
    }

    /// The shows whose details are still to be asked for.
    pub open spec fn shows_to_detail(self) -> int {
        self.shows.len() - self.show_at - match self.stage {
            Stage::Episodes | Stage::EpisodePause => 1int,
            _ => 0,
        }
    }
}

proof fn lemma_file_indices_add(a: Seq<BatchFileInfoView>, b: Seq<BatchFileInfoView>)
    ensures
        file_indices(a + b) == file_indices(a).add(file_indices(b)),
{
    let f = |f: BatchFileInfoView| f.index;
    assert((a + b).map_values(f) =~= a.map_values(f) + b.map_values(f));
    lemma_multiset_commutative(a.map_values(f), b.map_values(f));
}

proof fn lemma_file_indices_push(a: Seq<BatchFileInfoView>, x: BatchFileInfoView)
    ensures
        file_indices(a.push(x)) == file_indices(a).insert(x.index),
{
    broadcast use vstd::seq_lib::group_to_multiset_ensures;

    let f = |f: BatchFileInfoView| f.index;
    assert(a.push(x).map_values(f) =~= a.map_values(f).push(x.index));
}

proof fn lemma_file_indices_empty()
    ensures
        file_indices(Seq::empty()) == Multiset::<usize>::empty(),
{
    let f = |f: BatchFileInfoView| f.index;
    assert(Seq::<BatchFileInfoView>::empty().map_values(f) =~= Seq::<usize>::empty());
    assert(Seq::<usize>::empty().to_multiset().len() == 0) by {
        broadcast use vstd::seq_lib::group_to_multiset_ensures;

    }
    assert(Seq::<usize>::empty().to_multiset() =~= Multiset::<usize>::empty());
}

proof fn lemma_file_indices_split(a: Seq<BatchFileInfoView>, k: int, n: int)
    requires
        0 <= k,
        0 <= n,
        k + n <= a.len(),
    ensures
        file_indices(a.skip(k)) == file_indices(a.subrange(k, k + n)).add(
            file_indices(a.skip(k + n)),
        ),
{
    assert(a.skip(k) =~= a.subrange(k, k + n) + a.skip(k + n));
    lemma_file_indices_add(a.subrange(k, k + n), a.skip(k + n));
}

proof fn lemma_result_indices_add(a: Seq<OutcomeView>, b: Seq<OutcomeView>)
    ensures
        result_indices(a + b) == result_indices(a).add(result_indices(b)),
{
    let f = |o: OutcomeView| o.0;
    assert((a + b).map_values(f) =~= a.map_values(f) + b.map_values(f));
    lemma_multiset_commutative(a.map_values(f), b.map_values(f));
}

proof fn lemma_result_indices_push(a: Seq<OutcomeView>, x: OutcomeView)
    ensures
        result_indices(a.push(x)) == result_indices(a).insert(x.0),
{
    broadcast use vstd::seq_lib::group_to_multiset_ensures;

    let f = |o: OutcomeView| o.0;
    assert(a.push(x).map_values(f) =~= a.map_values(f).push(x.0));
}

proof fn lemma_failures_indices(files: Seq<BatchFileInfoView>, reason: Seq<char>)
    ensures
        result_indices(failures(files, reason)) == file_indices(files),
{
    assert(failures(files, reason).map_values(|o: OutcomeView| o.0) =~= files.map_values(
        |f: BatchFileInfoView| f.index,
    ));
}

proof fn lemma_batch_indices(s: BatchMatcherView, list: Seq<Option<EpisodeDetailsView>>)
    requires
        s.show_at < s.shows.len(),
        s.episode_at < s.group().len(),
    ensures
        result_indices(s.batch_outcomes(list)) == file_indices(s.batch()),
{
    assert(s.batch_outcomes(list).map_values(|o: OutcomeView| o.0) =~= s.batch().map_values(
        |f: BatchFileInfoView| f.index,
    ));
}

proof fn lemma_group_work_bounds(shows: Seq<ShowGroupView>, from: int)
    requires
        0 <= from,
    ensures
        group_work(shows, from) >= 0,
        from < shows.len() ==> group_work(shows, from) == 2 + 2 * shows[from].episodes.len()
            + group_work(shows, from + 1),
    decreases shows.len() - from,
{
    if from < shows.len() {
        lemma_group_work_bounds(shows, from + 1);
    }
}

proof fn lemma_pending_resumed(s: BatchMatcherView)
    ensures
        s.resumed().pending() == s.pending(),
        s.resumed().accounted() == s.accounted(),
{
}

/// Leaving a show behind whose episodes all have their results changes
/// nothing for the rest.
proof fn lemma_show_done(s: BatchMatcherView)
    requires
        s.movie_at == s.movies.len(),
        s.show_at < s.shows.len(),
        s.episode_at <= s.group().len(),
        s.well_sized(),
    ensures
        s.show_done().well_formed(),
        s.show_done().pending() == group_indices(s.shows, s.show_at + 1),
        s.show_done().work() == group_work(s.shows, s.show_at + 1),
        s.show_done().results == s.results,
        s.show_done().shows == s.shows,
        s.show_done().movies == s.movies,
        s.show_done().show_at == s.show_at + 1,
        s.show_done().stage == Stage::SearchShow || s.show_done().stage == Stage::Done,
{
    let d = s.show_done();
    lemma_file_indices_empty();
    assert(d.movies.skip(d.movie_at as int) =~= Seq::empty());
    if d.show_at < d.shows.len() {
        assert(d.group().skip(0) =~= d.group());
        assert(d.pending() =~= group_indices(s.shows, s.show_at + 1));
    } else {
        assert(d.pending() =~= group_indices(s.shows, s.show_at + 1));
    }
}

/// An accepted answer keeps the lookup well formed and loses no file,
/// and it uses up some of the work that is left.
pub proof fn lemma_next(s: BatchMatcherView, reply: ReplyView)
    requires
        s.well_formed(),
        s.accepts(reply),
    ensures
        s.next(reply).well_formed(),
        s.next(reply).accounted() == s.accounted(),
        0 <= s.next(reply).work() < s.work(),
        s.next(reply).shows == s.shows,
        s.next(reply).movies == s.movies,
        s.shows_to_search() == s.next(reply).shows_to_search() + if s.stage == Stage::SearchShow {
            1int
        } else {
            0
        },
        s.shows_to_detail() >= s.next(reply).shows_to_detail() + if s.stage == Stage::ShowDetails {
            1int
        } else {
            0
        },
{
    let n = s.next(reply);
    lemma_group_work_bounds(s.shows, s.show_at as int);
    lemma_group_work_bounds(s.shows, s.show_at + 1);
    lemma_group_work_bounds(s.shows, 0);
    match s.stage {
        Stage::SearchMovie | Stage::MovieDetails => {
            if n.stage == Stage::MoviePause {
                let found = n.results.last().1;
                assert(n == s.movie_done(found));
                lemma_result_indices_push(s.results, (s.movies[s.movie_at as int].index, found));
                lemma_file_indices_split(s.movies, s.movie_at as int, 1);
                let one = s.movies.subrange(s.movie_at as int, s.movie_at + 1);
                assert(one =~= Seq::empty().push(s.movies[s.movie_at as int]));
                lemma_file_indices_push(Seq::empty(), s.movies[s.movie_at as int]);
                lemma_file_indices_empty();
                assert(n.accounted() =~= s.accounted());
            } else {
                assert(n.accounted() =~= s.accounted());
            }
        },
        Stage::MoviePause => {
            lemma_pending_resumed(s);
        },
        Stage::SearchShow | Stage::ShowDetails => {
            if n.stage == Stage::ShowDetails || n.stage == Stage::Episodes {
                assert(s.group().skip(0) =~= s.group());
                assert(n.accounted() =~= s.accounted());
            } else {
                let reason = match reply {
                    ReplyView::Found(Err(reason)) => reason,
                    ReplyView::Details(Err(reason)) => reason,
                    _ => no_results_text(),
                };
                assert(n == s.show_failed(reason));
                let failed = BatchMatcherView {
                    results: s.results + failures(s.group(), reason),
                    ..s
                };
                lemma_show_done(failed);
                lemma_result_indices_add(s.results, failures(s.group(), reason));
                lemma_failures_indices(s.group(), reason);
                assert(s.group().skip(0) =~= s.group());
                lemma_file_indices_empty();
                assert(s.movies.skip(s.movie_at as int) =~= Seq::empty());
                assert(n.accounted() =~= s.accounted());
            }
        },
        Stage::Episodes => {
            let list = reply->Episodes_0;
            lemma_result_indices_add(s.results, s.batch_outcomes(list));
            lemma_batch_indices(s, list);
            lemma_file_indices_split(s.group(), s.episode_at as int, s.batch_len());
            assert(n.accounted() =~= s.accounted());
        },
        Stage::EpisodePause => {
            if s.episode_at < s.group().len() {
                assert(n.accounted() =~= s.accounted());
            } else {
                lemma_show_done(s);
                lemma_file_indices_empty();
                assert(s.group().skip(s.episode_at as int) =~= Seq::empty());
                assert(s.movies.skip(s.movie_at as int) =~= Seq::empty());
                assert(n.accounted() =~= s.accounted());
            }
        },
        Stage::Done => {},
    }
}

/// The groups are told apart by their keys, and each holds the episodes
/// whose title in lower case is its key.
pub open spec fn grouped(shows: Seq<ShowGroupView>) -> bool {
    &&& forall|g: int, h: int|
        0 <= g < h < shows.len() ==> (#[trigger] shows[g]).key != (#[trigger] shows[h]).key
    &&& forall|g: int, k: int|
        0 <= g < shows.len() && 0 <= k < shows[g].episodes.len() ==> {
            let file = #[trigger] shows[g].episodes[k];
            &&& lowercased(file.title) == shows[g].key
            &&& file.media_type == MediaType::TvShow
            &&& file.title.len() > 0
        }
}

proof fn lemma_group_with(shows: Seq<ShowGroupView>, key: Seq<char>, from: int)
    requires
        0 <= from,
    ensures
        match group_with(shows, key, from) {
            Some(g) => {
                &&& from <= g < shows.len()
                &&& shows[g].key == key
                &&& forall|j: int| from <= j < g ==> (#[trigger] shows[j]).key != key
            },
            None => forall|j: int| from <= j < shows.len() ==> (#[trigger] shows[j]).key != key,
        },
    decreases shows.len() - from,
{
    if from < shows.len() && shows[from].key != key {
        lemma_group_with(shows, key, from + 1);
    }
}

proof fn lemma_group_indices_tail(a: Seq<ShowGroupView>, b: Seq<ShowGroupView>, from: int)
    requires
        0 <= from,
        a.len() == b.len(),
        forall|j: int| from <= j < a.len() ==> a[j] == b[j],
    ensures
        group_indices(a, from) == group_indices(b, from),
    decreases a.len() - from,
{
    if from < a.len() {
        lemma_group_indices_tail(a, b, from + 1);
    }
}

proof fn lemma_group_indices_push(shows: Seq<ShowGroupView>, group: ShowGroupView, from: int)
    requires
        0 <= from <= shows.len(),
    ensures
        group_indices(shows.push(group), from) == group_indices(shows, from).add(
            file_indices(group.episodes),
        ),
    decreases shows.len() - from,
{
    let pushed = shows.push(group);
    if from < shows.len() {
        lemma_group_indices_push(shows, group, from + 1);
        assert(pushed[from] == shows[from]);
        assert(group_indices(pushed, from) =~= group_indices(shows, from).add(
            file_indices(group.episodes),
        ));
    } else {
        assert(group_indices(pushed, from + 1) =~= Multiset::empty());
        assert(group_indices(pushed, from) =~= group_indices(shows, from).add(
            file_indices(group.episodes),
        ));
    }
}

proof fn lemma_group_indices_update(
    shows: Seq<ShowGroupView>,
    g: int,
    group: ShowGroupView,
    file: BatchFileInfoView,
    from: int,
)
    requires
        0 <= from <= g < shows.len(),
        group.episodes == shows[g].episodes.push(file),
    ensures
        group_indices(shows.update(g, group), from) == group_indices(shows, from).insert(
            file.index,
        ),
    decreases g - from,
{
    let updated = shows.update(g, group);
    if from < g {
        lemma_group_indices_update(shows, g, group, file, from + 1);
        assert(updated[from] == shows[from]);
        assert(group_indices(updated, from) =~= group_indices(shows, from).insert(file.index));
    } else {
        lemma_group_indices_tail(updated, shows, g + 1);
        lemma_file_indices_push(shows[g].episodes, file);
        assert(group_indices(updated, from) =~= group_indices(shows, from).insert(file.index));
    }
}

/// The indices of all files that a lookup was sorted from.
pub open spec fn sorted_indices(s: BatchMatcherView) -> Multiset<usize> {
    result_indices(s.results).add(file_indices(s.movies)).add(group_indices(s.shows, 0))
}

/// Sorting loses no file, makes no list longer than the list of files, and
/// groups the episodes by their titles in lower case.
pub proof fn lemma_sorted(files: Seq<BatchFileInfoView>)
    ensures
        ({
            let s = BatchMatcherView::sorted(files);
            &&& s.stage == Stage::Done
            &&& s.movie_at == 0 && s.show_at == 0 && s.episode_at == 0
            &&& sorted_indices(s) == file_indices(files)
            &&& grouped(s.shows)
            &&& s.movies.len() <= files.len()
            &&& s.shows.len() <= files.len()
            &&& forall|g: int|
                0 <= g < s.shows.len() ==> 0 < (#[trigger] s.shows[g]).episodes.len()
                    <= files.len()
            &&& forall|i: int|
                0 <= i < files.len() && files[i].title.len() > 0 && files[i].media_type
                    == MediaType::TvShow ==> exists|g: int|
                    0 <= g < s.shows.len() && (#[trigger] s.shows[g]).episodes.contains(files[i])
        }),
    decreases files.len(),
{
    let s = BatchMatcherView::sorted(files);
    if files.len() == 0 {
        lemma_file_indices_empty();
        assert(Seq::<OutcomeView>::empty().map_values(|o: OutcomeView| o.0) =~= Seq::<
            usize,
        >::empty());
        assert(Seq::<usize>::empty().to_multiset().len() == 0) by {
            broadcast use vstd::seq_lib::group_to_multiset_ensures;

        }
        assert(result_indices(s.results) =~= Multiset::empty());
        assert(files =~= Seq::empty());
        assert(sorted_indices(s) =~= file_indices(files));
    } else {
        let before = files.drop_last();
        let file = files.last();
        let p = BatchMatcherView::sorted(before);
        lemma_sorted(before);
        assert(files =~= before.push(file));
        lemma_file_indices_push(before, file);
        assert forall|i: int|
            0 <= i < files.len() - 1 && files[i].title.len() > 0 && files[i].media_type
                == MediaType::TvShow implies exists|g: int|
            0 <= g < p.shows.len() && (#[trigger] p.shows[g]).episodes.contains(files[i]) by {
            assert(files[i] == before[i]);
        }
        if file.title.len() == 0 {
            lemma_result_indices_push(p.results, (file.index, Err(no_title_text())));
            assert(sorted_indices(s) =~= file_indices(files));
        } else if file.media_type == MediaType::TvShow {
            let key = lowercased(file.title);
            lemma_group_with(p.shows, key, 0);
            match group_with(p.shows, key, 0) {
                Some(g) => {
                    let group = ShowGroupView {
                        key: p.shows[g].key,
                        episodes: p.shows[g].episodes.push(file),
                    };
                    lemma_group_indices_update(p.shows, g, group, file, 0);
                    assert(s.shows == p.shows.update(g, group));
                    assert(group.episodes.last() == file);
                    assert(s.shows[g].episodes.contains(file));
                    assert forall|i: int|
                        0 <= i < files.len() && files[i].title.len() > 0 && files[i].media_type
                            == MediaType::TvShow implies exists|h: int|
                        0 <= h < s.shows.len() && (#[trigger] s.shows[h]).episodes.contains(
                            files[i],
                        ) by {
                        if i < files.len() - 1 {
                            let h = choose|h: int|
                                0 <= h < p.shows.len() && (#[trigger] p.shows[h]).episodes.contains(
                                    files[i],
                                );
                            let k = choose|k: int|
                                0 <= k < p.shows[h].episodes.len() && p.shows[h].episodes[k]
                                    == files[i];
                            assert(s.shows[h].episodes[k] == files[i]);
                            assert(s.shows[h].episodes.contains(files[i]));
                        } else {
                            assert(s.shows[g].episodes.contains(files[i]));
                        }
                    }
                    assert(grouped(s.shows)) by {
                        assert forall|a: int, b: int| 0 <= a < b < s.shows.len() implies (
                        #[trigger] s.shows[a]).key != (#[trigger] s.shows[b]).key by {
                            assert(s.shows[a].key == p.shows[a].key);
                            assert(s.shows[b].key == p.shows[b].key);
                        }
                        assert forall|a: int, k: int|
                            0 <= a < s.shows.len() && 0 <= k < s.shows[a].episodes.len() implies {
                            let f = #[trigger] s.shows[a].episodes[k];
                            &&& lowercased(f.title) == s.shows[a].key
                            &&& f.media_type == MediaType::TvShow
                            &&& f.title.len() > 0
                        } by {
                            if a == g && k == p.shows[g].episodes.len() {
                            } else {
                                assert(s.shows[a].episodes[k] == p.shows[a].episodes[k]);
                            }
                        }
                    }
                    assert(sorted_indices(s) =~= file_indices(files));
                },
                None => {
                    let group = ShowGroupView { key, episodes: seq![file] };
                    lemma_group_indices_push(p.shows, group, 0);
                    lemma_file_indices_empty();
                    lemma_file_indices_push(Seq::empty(), file);
                    assert(seq![file] =~= Seq::empty().push(file));
                    assert(s.shows == p.shows.push(group));
                    let last = p.shows.len() as int;
                    assert(s.shows[last].episodes[0] == file);
                    assert(s.shows[last].episodes.contains(file));
                    assert forall|i: int|
                        0 <= i < files.len() && files[i].title.len() > 0 && files[i].media_type
                            == MediaType::TvShow implies exists|h: int|
                        0 <= h < s.shows.len() && (#[trigger] s.shows[h]).episodes.contains(
                            files[i],
                        ) by {
                        if i < files.len() - 1 {
                            let h = choose|h: int|
                                0 <= h < p.shows.len() && (#[trigger] p.shows[h]).episodes.contains(
                                    files[i],
                                );
                            assert(s.shows[h] == p.shows[h]);
                        } else {
                            assert(s.shows[last].episodes.contains(files[i]));
                        }
                    }
                    assert(grouped(s.shows)) by {
                        assert forall|a: int, b: int| 0 <= a < b < s.shows.len() implies (
                        #[trigger] s.shows[a]).key != (#[trigger] s.shows[b]).key by {
                            if b < last {
                                assert(s.shows[a] == p.shows[a]);
                                assert(s.shows[b] == p.shows[b]);
                            } else {
                                assert(s.shows[a] == p.shows[a]);
                            }
                        }
                        assert forall|a: int, k: int|
                            0 <= a < s.shows.len() && 0 <= k < s.shows[a].episodes.len() implies {
                            let f = #[trigger] s.shows[a].episodes[k];
                            &&& lowercased(f.title) == s.shows[a].key
                            &&& f.media_type == MediaType::TvShow
                            &&& f.title.len() > 0
                        } by {
                            if a < last {
                                assert(s.shows[a].episodes[k] == p.shows[a].episodes[k]);
                            }
                        }
                    }
                    assert(sorted_indices(s) =~= file_indices(files));
                },
            }
        } else {
            lemma_file_indices_push(p.movies, file);
            assert(sorted_indices(s) =~= file_indices(files));
        }
    }
}

/// A lookup starts well formed and with every file accounted for.
pub proof fn lemma_started(api_key: Seq<char>, files: Seq<BatchFileInfoView>)
    requires
        files.len() <= usize::MAX,
    ensures
        BatchMatcherView::started(api_key, files).well_formed(),
        BatchMatcherView::started(api_key, files).accounted() == file_indices(files),
        grouped(BatchMatcherView::started(api_key, files).shows),
{
    let s = BatchMatcherView::started(api_key, files);
    lemma_file_indices_empty();
    if api_key.len() == 0 {
        lemma_failures_indices(files, no_key_text());
        assert(s.movies.skip(0) =~= Seq::empty());
        assert(s.accounted() =~= file_indices(files));
    } else {
        lemma_sorted(files);
        let p = BatchMatcherView::sorted(files);
        assert(p.movies.skip(0) =~= p.movies);
        if 0 < p.shows.len() {
            assert(p.shows[0].episodes.skip(0) =~= p.shows[0].episodes);
        }
        assert(s.accounted() =~= sorted_indices(p));
    }
}

/// Answers keep a lookup well formed and lose no file.
pub proof fn lemma_run(s: BatchMatcherView, replies: Seq<ReplyView>)
    requires
        s.well_formed(),
    ensures
        s.run(replies).well_formed(),
        s.run(replies).accounted() == s.accounted(),
        s.run(replies).shows == s.shows,
        s.run(replies).movies == s.movies,
        s.run(replies).work() <= s.work(),
    decreases replies.len(),
{
    if replies.len() > 0 {
        if s.accepts(replies[0]) {
            lemma_next(s, replies[0]);
            lemma_run(s.next(replies[0]), replies.skip(1));
        } else {
            lemma_run(s, replies.skip(1));
        }
    }
}

/// A lookup comes to its end: it takes no more answers than the work
/// that is left, and until its end it has a request to make.
pub proof fn lemma_lookup_ends(s: BatchMatcherView, replies: Seq<ReplyView>)
    requires
        s.well_formed(),
    ensures
        s.taken(replies) + s.run(replies).work() <= s.work(),
        s.run(replies).work() >= 0,
        !(s.run(replies).request() is Finished) <==> s.run(replies).stage != Stage::Done,
    decreases replies.len(),
{
    lemma_group_work_bounds(s.shows, s.show_at as int);
    lemma_group_work_bounds(s.shows, s.show_at + 1);
    if replies.len() > 0 {
        if s.accepts(replies[0]) {
            lemma_next(s, replies[0]);
            lemma_lookup_ends(s.next(replies[0]), replies.skip(1));
        } else {
            lemma_lookup_ends(s, replies.skip(1));
        }
    }
}

/// A finished lookup has a result for every file.
pub proof fn lemma_finished(s: BatchMatcherView)
    requires
        s.well_formed(),
        s.stage == Stage::Done,
    ensures
        s.pending() == Multiset::<usize>::empty(),
        s.accounted() == result_indices(s.results),
        s.work() == 0,
{
    lemma_file_indices_empty();
    assert(s.movies.skip(s.movie_at as int) =~= Seq::empty());
    assert(s.pending() =~= Multiset::<usize>::empty());
    assert(s.accounted() =~= result_indices(s.results));
}

/// Every lookup that reaches its end holds exactly one result for each
/// file: the indices of the results are the indices of the files, each as
/// often as it was given.
pub proof fn lemma_every_file_answered(
    api_key: Seq<char>,
    files: Seq<BatchFileInfoView>,
    replies: Seq<ReplyView>,
)
    requires
        files.len() <= usize::MAX,
        BatchMatcherView::started(api_key, files).run(replies).stage == Stage::Done,
    ensures
        result_indices(BatchMatcherView::started(api_key, files).run(replies).results)
            == file_indices(files),
        BatchMatcherView::started(api_key, files).run(replies).results.len() == files.len(),
{
    let start = BatchMatcherView::started(api_key, files);
    let end = start.run(replies);
    lemma_started(api_key, files);
    lemma_run(start, replies);
    lemma_finished(end);
    end.results.map_values(|o: OutcomeView| o.0).to_multiset_ensures();
    files.map_values(|f: BatchFileInfoView| f.index).to_multiset_ensures();
}

/// A lookup that is not at its end asks for something, and one at its end
/// asks for nothing.
pub proof fn lemma_request_until_done(s: BatchMatcherView)
    requires
        s.well_formed(),
    ensures
        s.request() is Finished <==> s.stage == Stage::Done,
{
}

/// While a lookup runs, it searches at most once for each show that is
/// still to be searched for, and asks at most once for its details; a
/// lookup that reaches its end has searched exactly once for each.
pub proof fn lemma_show_requests(s: BatchMatcherView, replies: Seq<ReplyView>)
    requires
        s.well_formed(),
    ensures
        s.taken_at(Stage::SearchShow, replies) <= s.shows_to_search(),
        s.taken_at(Stage::ShowDetails, replies) <= s.shows_to_detail(),
        s.run(replies).stage == Stage::Done ==> s.taken_at(Stage::SearchShow, replies)
            == s.shows_to_search(),
    decreases replies.len(),
{
    if replies.len() > 0 {
        if s.accepts(replies[0]) {
            lemma_next(s, replies[0]);
            lemma_show_requests(s.next(replies[0]), replies.skip(1));
        } else {
            lemma_show_requests(s, replies.skip(1));
        }
    }
}

/// Episodes whose titles are equal in lower case are looked up as one
/// show: from the first request to the last, the show is searched for
/// once and its details are asked for at most once, however many episodes
/// it has.
pub proof fn lemma_one_search_per_show(
    api_key: Seq<char>,
    files: Seq<BatchFileInfoView>,
    replies: Seq<ReplyView>,
)
    requires
        files.len() <= usize::MAX,
        api_key.len() > 0,
    ensures
        ({
            let start = BatchMatcherView::started(api_key, files);
            &&& grouped(start.shows)
            &&& forall|i: int|
                0 <= i < files.len() && files[i].title.len() > 0 && files[i].media_type
                    == MediaType::TvShow ==> exists|g: int|
                    0 <= g < start.shows.len() && (#[trigger] start.shows[g]).episodes.contains(
                        files[i],
                    )
            &&& start.taken_at(Stage::SearchShow, replies) <= start.shows.len()
            &&& start.taken_at(Stage::ShowDetails, replies) <= start.shows.len()
            &&& start.run(replies).stage == Stage::Done ==> start.taken_at(
                Stage::SearchShow,
                replies,
            ) == start.shows.len()
        }),
{
    let start = BatchMatcherView::started(api_key, files);
    lemma_started(api_key, files);
    lemma_sorted(files);
    lemma_show_requests(start, replies);
}

/// Two episodes whose titles are equal in lower case belong to the same
/// group, and there is no other group for that title.
pub proof fn lemma_same_title_same_group(
    shows: Seq<ShowGroupView>,
    g: int,
    h: int,
    a: BatchFileInfoView,
    b: BatchFileInfoView,
)
    requires
        grouped(shows),
        0 <= g < shows.len(),
        0 <= h < shows.len(),
        shows[g].episodes.contains(a),
        shows[h].episodes.contains(b),
        lowercased(a.title) == lowercased(b.title),
    ensures
        g == h,
{
    let i = choose|i: int| 0 <= i < shows[g].episodes.len() && shows[g].episodes[i] == a;
    let j = choose|j: int| 0 <= j < shows[h].episodes.len() && shows[h].episodes[j] == b;
    assert(lowercased(shows[g].episodes[i].title) == shows[g].key);
    assert(lowercased(shows[h].episodes[j].title) == shows[h].key);
}

} // verus!
