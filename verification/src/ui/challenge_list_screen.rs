//! The challenge list: which challenges the filters let through, where the
//! selection stands, and what a key press does.

use vstd::prelude::*;
use vstd::string::*;
use crate::domain::challenge::{Challenge, ChallengeView};
use crate::domain::progress::{Progress, ProgressView};
use crate::text::{
    chars_less, holds_text, lemma_chars_less_total, same_text, text_less, texts_of,
};
use crate::ui::key::Key;

verus! {

/// Which challenges the list shows, by completion.
#[derive(Debug, Clone, Copy, PartialEq, Eq, Structural)]
pub enum FilterMode {
    All,
    Incomplete,
    Completed,
}

/// Which part of the screen takes the keys.
#[derive(Debug, Clone, Copy, PartialEq, Eq, Structural)]
pub enum DisplayMode {
    List,
    FilterPanel,
}

/// What the list does after a key press.
#[derive(Debug, Clone, Copy, PartialEq, Eq, Structural)]
pub enum ListOutcome {
    /// The list stays open.
    Stay,
    /// The user leaves without a challenge.
    Leave,
    /// The user has chosen the challenge at this position among all
    /// challenges.
    Chosen(usize),
}

/// The challenge list.
#[derive(Debug)]
pub struct ChallengeListScreen {
    all_challenges: Vec<Challenge>,
    filtered_challenges: Vec<usize>,
    progress: Option<Progress>,
    selected_index: usize,
    filter_mode: FilterMode,
    tag_filters: Vec<String>,
    display_mode: DisplayMode,
    filter_panel_selected: usize,
    available_tags: Vec<String>,
}

/// The mathematical content of a [`ChallengeListScreen`].
pub struct ListView {
    pub challenges: Seq<ChallengeView>,
    pub progress: Option<ProgressView>,
    pub filtered: Seq<usize>,
    pub selected: usize,
    pub filter_mode: FilterMode,
    pub tag_filters: Seq<Seq<char>>,
    pub display_mode: DisplayMode,
    pub panel_selected: usize,
    pub available_tags: Seq<Seq<char>>,
}

/// Whether the challenge `id` is completed according to `progress`.
pub open spec fn is_completed_in(progress: Option<ProgressView>, id: Seq<char>) -> bool {
    progress is Some && exists|i: int|
        0 <= i < progress->0.stats.len() && (#[trigger] progress->0.stats[i]).challenge_id == id
            && progress->0.stats[i].completed
}

/// Whether a challenge passes the filter by completion: every challenge
/// passes `All`, those not completed pass `Incomplete`, and those completed
/// pass `Completed`. Without progress no challenge counts as completed.
pub open spec fn passes_completion(
    mode: FilterMode,
    progress: Option<ProgressView>,
    challenge: ChallengeView,
) -> bool {
    match mode {
        FilterMode::All => true,
        FilterMode::Incomplete => !is_completed_in(progress, challenge.id),
        FilterMode::Completed => is_completed_in(progress, challenge.id),
    }
}

/// Whether a challenge passes the filter by tags: with no tag chosen every
/// challenge passes, else those with at least one of the chosen tags.
pub open spec fn passes_tags(tag_filters: Seq<Seq<char>>, challenge: ChallengeView) -> bool {
    tag_filters.len() == 0 || exists|t: int|
        0 <= t < challenge.tags.len() && tag_filters.contains(#[trigger] challenge.tags[t])
}

/// Whether a challenge passes both filters.
pub open spec fn passes(
    mode: FilterMode,
    progress: Option<ProgressView>,
    tag_filters: Seq<Seq<char>>,
    challenge: ChallengeView,
) -> bool {
    passes_completion(mode, progress, challenge) && passes_tags(tag_filters, challenge)
}

/// The positions, among the first `upto` challenges, of those that pass
/// both filters, in ascending order.
pub open spec fn passing_positions(
    challenges: Seq<ChallengeView>,
    mode: FilterMode,
    progress: Option<ProgressView>,
    tag_filters: Seq<Seq<char>>,
    upto: int,
) -> Seq<usize>
    decreases upto,
{
    if upto <= 0 {
        Seq::empty()
    } else {
        let earlier = passing_positions(challenges, mode, progress, tag_filters, upto - 1);
        if passes(mode, progress, tag_filters, challenges[upto - 1]) {
            earlier.push((upto - 1) as usize)
        } else {
            earlier
        }
    }
}

/// The first place at which a list holds a text; the length of the list
/// where it does not hold it.
pub open spec fn first_place(list: Seq<Seq<char>>, text: Seq<char>) -> int
    decreases list.len(),
{
    if list.len() == 0 || list[0] == text {
        0
    } else {
        1 + first_place(list.drop_first(), text)
    }
}

/// The chosen tags after `tag` was switched: without it where it was among
/// them, with it at the end where it was not.
pub open spec fn switched(tag_filters: Seq<Seq<char>>, tag: Seq<char>) -> Seq<Seq<char>> {
    if tag_filters.contains(tag) {
        tag_filters.remove(first_place(tag_filters, tag))
    } else {
        tag_filters.push(tag)
    }
}

/// Where a list does not hold a text before `k` and holds it at `k`, `k` is
/// the first place of the text.
pub proof fn lemma_first_place(list: Seq<Seq<char>>, text: Seq<char>, k: int)
    requires
        0 <= k < list.len(),
        forall|j: int| 0 <= j < k ==> list[j] != text,
        list[k] == text,
    ensures
        first_place(list, text) == k,
    decreases k,
{
    if k > 0 {
        let rest = list.drop_first();
        assert forall|j: int| 0 <= j < k - 1 implies rest[j] != text by {
            assert(rest[j] == list[j + 1]);
        }
        assert(rest[k - 1] == list[k]);
        lemma_first_place(rest, text, k - 1);
    }
}

impl ListView {
    /// The list with the filters applied anew: the challenges that pass, and
    /// the selection back at the top where it had fallen off the list.
    pub open spec fn refiltered(self) -> ListView {
        let filtered = passing_positions(
            self.challenges,
            self.filter_mode,
            self.progress,
            self.tag_filters,
            self.challenges.len() as int,
        );
        ListView {
            filtered,
            selected: if self.selected >= filtered.len() && filtered.len() > 0 {
                0
            } else {
                self.selected
            },
            ..self
        }
    }

    /// The list after a key press.
    ///
    /// In the list: up and `k`, down and `j` move the selection within the
    /// list; `f` opens the filter panel; `a`, `i` and `c` set the filter by
    /// completion and apply the filters anew. In the filter panel: escape
    /// and `q` go back to the list; up and `k`, down and `j` move within the
    /// tags; enter and space switch the tag at hand and `x` clears all
    /// chosen tags, both applying the filters anew. No other key changes
    /// anything.
    pub open spec fn after_key(self, key: Key) -> ListView {
        match self.display_mode {
            DisplayMode::List => match key {
                Key::Up | Key::Char('k') => if self.selected > 0 {
                    ListView { selected: (self.selected - 1) as usize, ..self }
                } else {
                    self
                },
                Key::Down | Key::Char('j') => if self.selected + 1 < self.filtered.len() {
                    ListView { selected: (self.selected + 1) as usize, ..self }
                } else {
                    self
                },
                Key::Char('f') => ListView { display_mode: DisplayMode::FilterPanel, ..self },
                Key::Char('a') => (ListView { filter_mode: FilterMode::All, ..self }).refiltered(),
                Key::Char('i') => (ListView {
                    filter_mode: FilterMode::Incomplete,
                    ..self
                }).refiltered(),
                Key::Char('c') => (ListView {
                    filter_mode: FilterMode::Completed,
                    ..self
                }).refiltered(),
                _ => self,
            },
            DisplayMode::FilterPanel => match key {
                Key::Esc | Key::Char('q') => ListView { display_mode: DisplayMode::List, ..self },
                Key::Up | Key::Char('k') => if self.panel_selected > 0 {
                    ListView { panel_selected: (self.panel_selected - 1) as usize, ..self }
                } else {
                    self
                },
                Key::Down | Key::Char('j') => if self.panel_selected + 1
                    < self.available_tags.len() {
                    ListView { panel_selected: (self.panel_selected + 1) as usize, ..self }
                } else {
                    self
                },
                Key::Enter | Key::Char(' ') => if self.panel_selected < self.available_tags.len() {
                    (ListView {
                        tag_filters: switched(
                            self.tag_filters,
                            self.available_tags[self.panel_selected as int],
                        ),
                        ..self
                    }).refiltered()
                } else {
                    self
                },
                Key::Char('x') => (ListView { tag_filters: Seq::empty(), ..self }).refiltered(),
                _ => self,
            },
        }
    }

    /// What the list does after a key press. In the list, `q` and escape
    /// leave, enter chooses the selected challenge, and `r` chooses the
    /// challenge that `seed` picks among those shown, or leaves where none
    /// is shown. Every other key, and every key in the filter panel, keeps
    /// the list open.
    pub open spec fn outcome_of(self, key: Key, seed: usize) -> ListOutcome {
        match self.display_mode {
            DisplayMode::List => match key {
                Key::Char('q') | Key::Esc => ListOutcome::Leave,
                Key::Enter => if self.selected < self.filtered.len() {
                    ListOutcome::Chosen(self.filtered[self.selected as int])
                } else {
                    ListOutcome::Stay
                },
                Key::Char('r') => if self.filtered.len() > 0 {
                    ListOutcome::Chosen(self.filtered[seed as int % self.filtered.len() as int])
                } else {
                    ListOutcome::Leave
                },
                _ => ListOutcome::Stay,
            },
            DisplayMode::FilterPanel => ListOutcome::Stay,
        }
    }

    /// Every shown position names a challenge, the progress is well formed,
    /// and the selection lies within the list unless the list is empty.
    pub open spec fn wf(self) -> bool {
        &&& forall|k: int| 0 <= k < self.filtered.len() ==> #[trigger] self.filtered[k] < self.challenges.len()
        &&& self.progress is Some ==> self.progress->0.wf()
        &&& self.filtered.len() > 0 ==> self.selected < self.filtered.len()
    }
}

/// Every position that `passing_positions` gives lies below `upto`, and
/// there are at most `upto` of them.
pub proof fn lemma_passing_positions(
    challenges: Seq<ChallengeView>,
    mode: FilterMode,
    progress: Option<ProgressView>,
    tag_filters: Seq<Seq<char>>,
    upto: int,
)
    requires
        0 <= upto <= challenges.len(),
        challenges.len() <= usize::MAX,
    ensures
        passing_positions(challenges, mode, progress, tag_filters, upto).len() <= upto,
        forall|k: int|
            0 <= k < passing_positions(challenges, mode, progress, tag_filters, upto).len()
                ==> #[trigger] passing_positions(challenges, mode, progress, tag_filters, upto)[k]
                < upto,
    decreases upto,
{
    if upto > 0 {
        lemma_passing_positions(challenges, mode, progress, tag_filters, upto - 1);
    }
}

/// Whether every text of `sorted` comes before the next in the order of the
/// dictionary.
pub open spec fn is_ascending(sorted: Seq<Seq<char>>) -> bool {
    forall|k: int| 0 <= k < sorted.len() - 1 ==> chars_less(#[trigger] sorted[k], sorted[k + 1])
}

/// Whether `text` is a tag of one of the first `upto` challenges.
pub open spec fn is_tag_upto(challenges: Seq<ChallengeView>, upto: int, text: Seq<char>) -> bool {
    exists|c: int, t: int|
        0 <= c < upto && c < challenges.len() && 0 <= t < challenges[c].tags.len()
            && #[trigger] challenges[c].tags[t] == text
}

/// Whether `tags` holds every tag of the challenges and nothing else, in
/// the order of the dictionary.
pub open spec fn is_tag_index(challenges: Seq<ChallengeView>, tags: Seq<Seq<char>>) -> bool {
    &&& is_ascending(tags)
    &&& forall|k: int| 0 <= k < tags.len() ==> is_tag_upto(challenges, challenges.len() as int, #[trigger] tags[k])
    &&& forall|c: int, t: int|
        0 <= c < challenges.len() && 0 <= t < challenges[c].tags.len() ==> tags.contains(
            #[trigger] challenges[c].tags[t],
        )
}

/// Puts `tag` into the ascending list `tags` at its place, unless the list
/// holds it.
fn insert_tag(tags: &mut Vec<String>, tag: &str)
    requires
        is_ascending(texts_of(old(tags)@)),
    ensures
        is_ascending(texts_of(final(tags)@)),
        texts_of(final(tags)@).contains(tag@),
        forall|text: Seq<char>|
            texts_of(old(tags)@).contains(text) ==> texts_of(final(tags)@).contains(text),
        forall|text: Seq<char>|
            texts_of(final(tags)@).contains(text) ==> text == tag@ || texts_of(
                old(tags)@,
            ).contains(text),
{
    let ghost before = texts_of(tags@);
    let mut k: usize = 0;
    while k < tags.len() && text_less(tags[k].as_str(), tag)
        invariant
            0 <= k <= tags.len(),
            before == texts_of(tags@),
            forall|j: int| 0 <= j < k ==> chars_less(#[trigger] before[j], tag@),
        decreases tags.len() - k,
    {
        assert(before[k as int] == tags[k as int]@);
        k = k + 1;
    }
    if k < tags.len() {
        assert(before[k as int] == tags[k as int]@);
        if same_text(tags[k].as_str(), tag) {
            return ;
        }
        proof {
            lemma_chars_less_total(before[k as int], tag@);
        }
    }
    tags.insert(k, tag.to_string());
    proof {
        let after = texts_of(tags@);
        assert(after =~= before.insert(k as int, tag@));
        assert(after[k as int] == tag@);
        assert forall|j: int| 0 <= j < after.len() - 1 implies chars_less(
            #[trigger] after[j],
            after[j + 1],
        ) by {
            if j + 1 < k {
                assert(after[j] == before[j] && after[j + 1] == before[j + 1]);
            } else if j + 1 == k {
                assert(after[j] == before[j]);
            } else if j == k {
                assert(after[j + 1] == before[k as int]);
            } else {
                assert(after[j] == before[j - 1] && after[j + 1] == before[j]);
            }
        }
        assert forall|text: Seq<char>| before.contains(text) implies after.contains(text) by {
            let w = choose|w: int| 0 <= w < before.len() && before[w] == text;
            if w < k {
                assert(after[w] == text);
            } else {
                assert(after[w + 1] == text);
            }
        }
        assert forall|text: Seq<char>| after.contains(text) implies text == tag@
            || before.contains(text) by {
            let w = choose|w: int| 0 <= w < after.len() && after[w] == text;
            if w < k {
                assert(before[w] == text);
            } else if w > k {
                assert(before[w - 1] == text);
            }
        }
    }
}

impl View for ChallengeListScreen {
    type V = ListView;

    closed spec fn view(&self) -> ListView {
        ListView {
            challenges: self.all_challenges@.map_values(|c: Challenge| c@),
            progress: match self.progress {
                Some(progress) => Some(progress@),
                None => None,
            },
            filtered: self.filtered_challenges@,
            selected: self.selected_index,
            filter_mode: self.filter_mode,
            tag_filters: texts_of(self.tag_filters@),
            display_mode: self.display_mode,
            panel_selected: self.filter_panel_selected,
            available_tags: texts_of(self.available_tags@),
        }
    }
}

impl ChallengeListScreen {
    /// All tags of the challenges, each once, in the order of the
    /// dictionary.
    pub fn extract_all_tags(challenges: &Vec<Challenge>) -> (tags: Vec<String>)
        ensures
            is_tag_index(challenges@.map_values(|c: Challenge| c@), texts_of(tags@)),
    {
        let ghost views = challenges@.map_values(|c: Challenge| c@);
        let mut tags: Vec<String> = Vec::new();
        let mut c: usize = 0;
        while c < challenges.len()
            invariant
                0 <= c <= challenges.len(),
                views == challenges@.map_values(|c: Challenge| c@),
                is_ascending(texts_of(tags@)),
                forall|k: int|
                    0 <= k < tags.len() ==> is_tag_upto(views, c as int, #[trigger] texts_of(tags@)[k]),
                forall|x: int, t: int|
                    0 <= x < c && 0 <= t < views[x].tags.len() ==> texts_of(tags@).contains(
                        #[trigger] views[x].tags[t],
                    ),
            decreases challenges.len() - c,
        {
            let own = challenges[c].tags();
            assert(texts_of(own@) == views[c as int].tags);
            let mut t: usize = 0;
            while t < own.len()
                invariant
                    0 <= t <= own.len(),
                    0 <= c < challenges.len(),
                    views == challenges@.map_values(|c: Challenge| c@),
                    texts_of(own@) == views[c as int].tags,
                    is_ascending(texts_of(tags@)),
                    forall|k: int|
                        0 <= k < tags.len() ==> is_tag_upto(
                            views,
                            c + 1,
                            #[trigger] texts_of(tags@)[k],
                        ),
                    forall|x: int, y: int|
                        0 <= x < c && 0 <= y < views[x].tags.len() ==> texts_of(tags@).contains(
                            #[trigger] views[x].tags[y],
                        ),
                    forall|y: int|
                        0 <= y < t ==> texts_of(tags@).contains(#[trigger] views[c as int].tags[y]),
                decreases own.len() - t,
            {
                let ghost before = texts_of(tags@);
                assert(texts_of(own@)[t as int] == own[t as int]@);
                insert_tag(&mut tags, own[t].as_str());
                proof {
                    let after = texts_of(tags@);
                    assert forall|k: int| 0 <= k < tags.len() implies is_tag_upto(
                        views,
                        c + 1,
                        #[trigger] after[k],
                    ) by {
                        assert(after.contains(after[k]));
                        if after[k] == own[t as int]@ {
                            assert(views[c as int].tags[t as int] == after[k]);
                        } else {
                            assert(before.contains(after[k]));
                            let w = choose|w: int| 0 <= w < before.len() && before[w] == after[k];
                            assert(is_tag_upto(views, c + 1, before[w]));
                        }
                    }
                    assert forall|x: int, y: int|
                        0 <= x < c && 0 <= y < views[x].tags.len() implies after.contains(
                        #[trigger] views[x].tags[y],
                    ) by {
                        assert(before.contains(views[x].tags[y]));
                    }
                    assert forall|y: int| 0 <= y < t + 1 implies after.contains(
                        #[trigger] views[c as int].tags[y],
                    ) by {
                        if y < t {
                            assert(before.contains(views[c as int].tags[y]));
                        }
                    }
                }
                t = t + 1;
            }
            c = c + 1;
        }
        tags
    }

    /// The list of the given challenges: all shown, the first selected, no
    /// progress known.
    pub fn new(challenges: Vec<Challenge>) -> (screen: Self)
        ensures
            screen@.challenges == challenges@.map_values(|c: Challenge| c@),
            screen@.progress is None,
            screen@.filtered.len() == challenges.len(),
            forall|k: int| 0 <= k < challenges.len() ==> #[trigger] screen@.filtered[k] == k,
            screen@.selected == 0,
            screen@.filter_mode == FilterMode::All,
            screen@.tag_filters.len() == 0,
            screen@.display_mode == DisplayMode::List,
            screen@.panel_selected == 0,
            is_tag_index(screen@.challenges, screen@.available_tags),
            screen@.wf(),
    {
        let mut filtered_challenges: Vec<usize> = Vec::new();
        let mut i: usize = 0;
        while i < challenges.len()
            invariant
                0 <= i <= challenges.len(),
                filtered_challenges.len() == i,
                forall|k: int| 0 <= k < i ==> #[trigger] filtered_challenges[k] == k,
            decreases challenges.len() - i,
        {
            filtered_challenges.push(i);
            i = i + 1;
        }
        let available_tags = Self::extract_all_tags(&challenges);
        ChallengeListScreen {
            all_challenges: challenges,
            filtered_challenges,
            progress: None,
            selected_index: 0,
            filter_mode: FilterMode::All,
            tag_filters: Vec::new(),
            display_mode: DisplayMode::List,
            filter_panel_selected: 0,
            available_tags,
        }
    }

    /// The list with the progress made known.
    pub fn with_progress(self, progress: Progress) -> (screen: Self)
        requires
            self@.wf(),
            progress@.wf(),
        ensures
            screen@ == (ListView { progress: Some(progress@), ..self@ }),
            screen@.wf(),
    {
        let mut screen = self;
        screen.progress = Some(progress);
        screen
    }

    /// Whether the challenge at `position` passes both filters.
    fn passes_filters(&self, position: usize) -> (passes_both: bool)
        requires
            self@.wf(),
            position < self@.challenges.len(),
        ensures
            passes_both == passes(
                self@.filter_mode,
                self@.progress,
                self@.tag_filters,
                self@.challenges[position as int],
            ),
    {
        let challenge = &self.all_challenges[position];
        assert(self@.challenges[position as int] == challenge@);
        let completed = match &self.progress {
            Some(progress) => match progress.get_challenge_stats(challenge.id()) {
                Some(stats) => {
                    proof {
                        let views = progress@.stats;
                        let w = choose|w: int|
                            0 <= w < views.len() && #[trigger] views[w] == stats@;
                        if stats@.completed {
                            assert(views[w].challenge_id == challenge@.id && views[w].completed);
                        } else {
                            if is_completed_in(Some(progress@), challenge@.id) {
                                let e = choose|e: int|
                                    0 <= e < views.len() && (#[trigger] views[e]).challenge_id
                                        == challenge@.id && views[e].completed;
                                assert(views[e].challenge_id == views[w].challenge_id);
                                assert(e == w);
                            }
                        }
                    }
                    stats.is_completed()
                },
                None => false,
            },
            None => false,
        };
        let passes_completion_filter = match self.filter_mode {
            FilterMode::All => true,
            FilterMode::Incomplete => !completed,
            FilterMode::Completed => completed,
        };
        if !passes_completion_filter {
            return false;
        }
        if self.tag_filters.len() == 0 {
            return true;
        }
        let tags = challenge.tags();
        assert(texts_of(tags@) == challenge@.tags);
        let mut t: usize = 0;
        while t < tags.len()
            invariant
                0 <= t <= tags.len(),
                texts_of(tags@) == challenge@.tags,
                self@.challenges[position as int] == challenge@,
                self@.tag_filters == texts_of(self.tag_filters@),
                self.tag_filters.len() > 0,
                passes_completion(self@.filter_mode, self@.progress, challenge@),
                forall|y: int|
                    0 <= y < t ==> !texts_of(self.tag_filters@).contains(#[trigger] challenge@.tags[y]),
            decreases tags.len() - t,
        {
            assert(texts_of(tags@)[t as int] == tags[t as int]@);
            if holds_text(&self.tag_filters, tags[t].as_str()) {
                assert(texts_of(self.tag_filters@).contains(challenge@.tags[t as int]));
                return true;
            }
            t = t + 1;
        }
        false
    }

    /// Applies the filters anew: the list shows the challenges that pass,
    /// and the selection goes back to the top where it had fallen off the
    /// list.
    pub fn apply_filters(&mut self)
        requires
            old(self)@.wf(),
        ensures
            final(self)@ == old(self)@.refiltered(),
            final(self)@.wf(),
    {
        let ghost before = self@;
        let mut filtered: Vec<usize> = Vec::new();
        let mut i: usize = 0;
        while i < self.all_challenges.len()
            invariant
                0 <= i <= self.all_challenges.len(),
                self@ == before,
                before.wf(),
                before.challenges.len() == self.all_challenges.len(),
                filtered@ == passing_positions(
                    before.challenges,
                    before.filter_mode,
                    before.progress,
                    before.tag_filters,
                    i as int,
                ),
            decreases self.all_challenges.len() - i,
        {
            if self.passes_filters(i) {
                filtered.push(i);
            }
            i = i + 1;
        }
        proof {
            lemma_passing_positions(
                before.challenges,
                before.filter_mode,
                before.progress,
                before.tag_filters,
                before.challenges.len() as int,
            );
        }
        self.filtered_challenges = filtered;
        if self.selected_index >= self.filtered_challenges.len() && self.filtered_challenges.len()
            > 0 {
            self.selected_index = 0;
        }
    }

    /// The challenge that `seed` picks among those shown; none where none
    /// is shown.
    pub fn get_random_challenge(&self, seed: usize) -> (challenge: Option<Challenge>)
        requires
            self@.wf(),
        ensures
            challenge is Some <==> self@.filtered.len() > 0,
            challenge is Some ==> challenge->0@ == self@.challenges[self@.filtered[seed as int
                % self@.filtered.len() as int] as int],
    {
        if self.filtered_challenges.len() == 0 {
            return None;
        }
        let random_idx = seed % self.filtered_challenges.len();
        let challenge_idx = self.filtered_challenges[random_idx];
        assert(self@.challenges[challenge_idx as int] == self.all_challenges[challenge_idx as int]@);
        Some(self.all_challenges[challenge_idx].clone())
    }

    /// Switches the tag at hand in the filter panel.
    fn switch_tag(&mut self)
        requires
            old(self)@.wf(),
            old(self)@.panel_selected < old(self)@.available_tags.len(),
        ensures
            final(self)@ == (ListView {
                tag_filters: switched(
                    old(self)@.tag_filters,
                    old(self)@.available_tags[old(self)@.panel_selected as int],
                ),
                ..old(self)@
            }),
    {
        let ghost before = self@;
        let tag = self.available_tags[self.filter_panel_selected].clone();
        assert(before.available_tags[before.panel_selected as int] == tag@);
        let mut k: usize = 0;
        while k < self.tag_filters.len()
            invariant
                0 <= k <= self.tag_filters.len(),
                self@ == before,
                before == old(self)@,
                before.panel_selected < before.available_tags.len(),
                before.available_tags[before.panel_selected as int] == tag@,
                forall|j: int| 0 <= j < k ==> before.tag_filters[j] != tag@,
            decreases self.tag_filters.len() - k,
        {
            assert(before.tag_filters[k as int] == self.tag_filters[k as int]@);
            if same_text(self.tag_filters[k].as_str(), tag.as_str()) {
                proof {
                    lemma_first_place(before.tag_filters, tag@, k as int);
                    assert(before.tag_filters.contains(tag@));
                }
                self.tag_filters.remove(k);
                assert(texts_of(self.tag_filters@) =~= before.tag_filters.remove(k as int));
                return ;
            }
            k = k + 1;
        }
        self.tag_filters.push(tag);
        assert(texts_of(self.tag_filters@) =~= before.tag_filters.push(tag@));
    }

    /// Takes a key press. `seed` picks the challenge where the user asks for
    /// a random one.
    pub fn handle_key(&mut self, key: Key, seed: usize) -> (outcome: ListOutcome)
        requires
            old(self)@.wf(),
        ensures
            final(self)@ == old(self)@.after_key(key),
            outcome == old(self)@.outcome_of(key, seed),
            final(self)@.wf(),
    {
        match self.display_mode {
            DisplayMode::List => match key {
                Key::Char('q') | Key::Esc => ListOutcome::Leave,
                Key::Up | Key::Char('k') => {
                    if self.selected_index > 0 {
                        self.selected_index = self.selected_index - 1;
                    }
                    ListOutcome::Stay
                },
                Key::Down | Key::Char('j') => {
                    if self.filtered_challenges.len() > 0 && self.selected_index
                        < self.filtered_challenges.len() - 1 {
                        self.selected_index = self.selected_index + 1;
                    }
                    ListOutcome::Stay
                },
                Key::Enter => {
                    if self.selected_index < self.filtered_challenges.len() {
                        ListOutcome::Chosen(self.filtered_challenges[self.selected_index])
                    } else {
                        ListOutcome::Stay
                    }
                },
                Key::Char('f') => {
                    self.display_mode = DisplayMode::FilterPanel;
                    ListOutcome::Stay
                },
                Key::Char('r') => {
                    if self.filtered_challenges.len() > 0 {
                        ListOutcome::Chosen(
                            self.filtered_challenges[seed % self.filtered_challenges.len()],
                        )
                    } else {
                        ListOutcome::Leave
                    }
                },
                Key::Char('a') => {
                    self.filter_mode = FilterMode::All;
                    self.apply_filters();
                    ListOutcome::Stay
                },
                Key::Char('i') => {
                    self.filter_mode = FilterMode::Incomplete;
                    self.apply_filters();
                    ListOutcome::Stay
                },
                Key::Char('c') => {
                    self.filter_mode = FilterMode::Completed;
                    self.apply_filters();
                    ListOutcome::Stay
                },
                _ => ListOutcome::Stay,
            },
            DisplayMode::FilterPanel => match key {
                Key::Esc | Key::Char('q') => {
                    self.display_mode = DisplayMode::List;
                    ListOutcome::Stay
                },
                Key::Up | Key::Char('k') => {
                    if self.filter_panel_selected > 0 {
                        self.filter_panel_selected = self.filter_panel_selected - 1;
                    }
                    ListOutcome::Stay
                },
                Key::Down | Key::Char('j') => {
                    if self.available_tags.len() > 0 && self.filter_panel_selected
                        < self.available_tags.len() - 1 {
                        self.filter_panel_selected = self.filter_panel_selected + 1;
                    }
                    ListOutcome::Stay
                },
                Key::Enter | Key::Char(' ') => {
                    if self.filter_panel_selected < self.available_tags.len() {
                        self.switch_tag();
                        self.apply_filters();
                    }
                    ListOutcome::Stay
                },
                Key::Char('x') => {
                    self.tag_filters = Vec::new();
                    assert(texts_of(self.tag_filters@) =~= Seq::empty());
                    self.apply_filters();
                    ListOutcome::Stay
                },
                _ => ListOutcome::Stay,
            },
        }
    }

    /// All challenges.
    pub fn all_challenges(&self) -> (challenges: &Vec<Challenge>)
        ensures
            challenges@.map_values(|c: Challenge| c@) == self@.challenges,
    {
        &self.all_challenges
    }

    /// The positions, among all challenges, of those that are shown.
    pub fn filtered_challenges(&self) -> (filtered: &Vec<usize>)
        ensures
            filtered@ == self@.filtered,
    {
        &self.filtered_challenges
    }

    /// The progress, where it is known.
    pub fn progress(&self) -> (progress: Option<&Progress>)
        ensures
            progress is Some <==> self@.progress is Some,
            progress is Some ==> progress->0@ == self@.progress->0,
    {
        self.progress.as_ref()
    }

    /// The place of the selection in the list.
    pub fn selected_index(&self) -> (selected: usize)
        ensures
            selected == self@.selected,
    {
        self.selected_index
    }

    /// The filter by completion.
    pub fn filter_mode(&self) -> (mode: FilterMode)
        ensures
            mode == self@.filter_mode,
    {
        self.filter_mode
    }

    /// The chosen tags, in the order in which they were chosen.
    pub fn tag_filters(&self) -> (tags: &Vec<String>)
        ensures
            texts_of(tags@) == self@.tag_filters,
    {
        &self.tag_filters
    }

    /// Which part of the screen takes the keys.
    pub fn display_mode(&self) -> (mode: DisplayMode)
        ensures
            mode == self@.display_mode,
    {
        self.display_mode
    }

    /// The place of the selection in the filter panel.
    pub fn filter_panel_selected(&self) -> (selected: usize)
        ensures
            selected == self@.panel_selected,
    {
        self.filter_panel_selected
    }

    /// All tags of the challenges, in the order of the dictionary.
    pub fn available_tags(&self) -> (tags: &Vec<String>)
        ensures
            texts_of(tags@) == self@.available_tags,
    {
        &self.available_tags
    }
}

} // verus!
