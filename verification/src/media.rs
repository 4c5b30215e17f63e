//! Media players on the session bus, and the playback state shown beside
//! the windows that play.
use vstd::prelude::*;

use crate::settings::AudioIndicatorConfig;
use crate::strmap::StrMap;
use crate::text::{chars_of, lowercase, string_of, to_lowercase};

verus! {

broadcast use vstd::string::group_string_axioms;

/// The bus names of media players start with this.
pub const MPRIS_PREFIX: &'static str = "org.mpris.MediaPlayer2.";

/// The player interface of a media player.
pub const PLAYER_INTERFACE: &'static str = "org.mpris.MediaPlayer2.Player";

/// The root interface of a media player.
pub const MPRIS_ROOT_INTERFACE: &'static str = "org.mpris.MediaPlayer2";

/// A bus suffix that belongs to a proxy daemon, not to a player.
pub const IGNORED_SUFFIX: &'static str = "playerctld";

/// Whether a player plays.
#[derive(PartialEq, Eq, Structural, Clone, Copy)]
pub enum PlaybackStatus {
    Playing,
    Paused,
    Stopped,
}

/// The status a player reports as `s`: anything but playing or paused counts
/// as stopped.
pub open spec fn status_of(s: Seq<char>) -> PlaybackStatus {
    if s == "Playing"@ {
        PlaybackStatus::Playing
    } else if s == "Paused"@ {
        PlaybackStatus::Paused
    } else {
        PlaybackStatus::Stopped
    }
}

pub open spec fn priority_of(s: PlaybackStatus) -> u8 {
    match s {
        PlaybackStatus::Playing => 2,
        PlaybackStatus::Paused => 1,
        PlaybackStatus::Stopped => 0,
    }
}

/// Of two statuses, the one of higher priority; the first on a tie.
pub open spec fn more_active(a: PlaybackStatus, b: PlaybackStatus) -> PlaybackStatus {
    if priority_of(a) >= priority_of(b) {
        a
    } else {
        b
    }
}

fn str_is(s: &str, lit: &str) -> (b: bool)
    ensures
        b == (s@ == lit@),
{
    let a = s.to_string();
    let l = lit.to_string();
    a.eq(&l)
}

impl PlaybackStatus {
    /// The status a player reports as `s`.
    pub fn parse(s: &str) -> (r: Self)
        ensures
            r == status_of(s@),
    {
        if str_is(s, "Playing") {
            PlaybackStatus::Playing
        } else if str_is(s, "Paused") {
            PlaybackStatus::Paused
        } else {
            PlaybackStatus::Stopped
        }
    }

    /// Higher priority wins when several players are merged.
    pub fn priority(self) -> (p: u8)
        ensures
            p == priority_of(self),
    {
        match self {
            PlaybackStatus::Playing => 2,
            PlaybackStatus::Paused => 1,
            PlaybackStatus::Stopped => 0,
        }
    }

    /// Of two statuses, the one of higher priority.
    pub fn most_active(a: Self, b: Self) -> (r: Self)
        ensures
            r == more_active(a, b),
    {
        if a.priority() >= b.priority() {
            a
        } else {
            b
        }
    }
}

/// How a status reads in a listing of players.
pub fn status_symbol(status: PlaybackStatus) -> (s: &'static str)
    ensures
        s@ == match status {
            PlaybackStatus::Playing => "▶ Playing"@,
            PlaybackStatus::Paused => "⏸ Paused"@,
            PlaybackStatus::Stopped => "⏹ Stopped"@,
        },
{
    match status {
        PlaybackStatus::Playing => "▶ Playing",
        PlaybackStatus::Paused => "⏸ Paused",
        PlaybackStatus::Stopped => "⏹ Stopped",
    }
}

/// `s` up to its first `sep`, or all of it.
pub open spec fn first_segment(s: Seq<char>, sep: char) -> Seq<char>
    decreases s.len(),
{
    if s.len() == 0 || s[0] == sep {
        Seq::empty()
    } else {
        seq![s[0]] + first_segment(s.drop_first(), sep)
    }
}

/// The player's name in a bus name of a media player, lowercased: what
/// follows the prefix, up to the first dot; nothing for other names and for
/// the proxy daemon.
pub open spec fn bus_suffix_of(name: Seq<char>) -> Option<Seq<char>> {
    let p = MPRIS_PREFIX@;
    if p.len() <= name.len() && name.subrange(0, p.len() as int) == p {
        let suffix = lowercase(first_segment(name.subrange(p.len() as int, name.len() as int), '.'));
        if suffix == IGNORED_SUFFIX@ {
            None
        } else {
            Some(suffix)
        }
    } else {
        None
    }
}

/// Whether `s` starts with `prefix`.
fn starts_with(s: &Vec<char>, prefix: &Vec<char>) -> (b: bool)
    ensures
        b == (prefix@.len() <= s@.len() && s@.subrange(0, prefix@.len() as int) == prefix@),
{
    if prefix.len() > s.len() {
        return false;
    }
    let mut i: usize = 0;
    while i < prefix.len()
        invariant
            i <= prefix@.len(),
            prefix@.len() <= s@.len(),
            forall|k: int| 0 <= k < i ==> s@[k] == prefix@[k],
        decreases prefix@.len() - i,
    {
        if s[i] != prefix[i] {
            proof {
                assert(s@.subrange(0, prefix@.len() as int)[i as int] != prefix@[i as int]);
            }
            return false;
        }
        i = i + 1;
    }
    proof {
        assert(s@.subrange(0, prefix@.len() as int) =~= prefix@);
    }
    true
}

/// The player's name in a bus name, as `bus_suffix_of` says.
pub fn extract_bus_suffix(bus_name: &str) -> (r: Option<String>)
    ensures
        r.deep_view() == bus_suffix_of(bus_name@),
{
    let name = chars_of(bus_name);
    let prefix = chars_of(MPRIS_PREFIX);
    if !starts_with(&name, &prefix) {
        return None;
    }
    let ghost rest = name@.subrange(prefix@.len() as int, name@.len() as int);
    let mut seg: Vec<char> = Vec::new();
    let mut i: usize = prefix.len();
    proof {
        assert(name@.subrange(i as int, name@.len() as int) =~= rest);
        assert(seg@ + first_segment(rest, '.') =~= first_segment(rest, '.'));
    }
    while i < name.len()
        invariant_except_break
            seg@ + first_segment(name@.subrange(i as int, name@.len() as int), '.') == first_segment(
                rest,
                '.',
            ),
        invariant
            prefix@.len() <= i <= name@.len(),
        ensures
            seg@ == first_segment(rest, '.'),
        decreases name@.len() - i,
    {
        let ghost here = name@.subrange(i as int, name@.len() as int);
        if name[i] == '.' {
            proof {
                assert(seg@ + Seq::<char>::empty() =~= seg@);
            }
            break;
        }
        let ghost seg_old = seg@;
        seg.push(name[i]);
        proof {
            assert(here.drop_first() =~= name@.subrange(i + 1, name@.len() as int));
            assert(here[0] == name@[i as int]);
            assert(seg@ + first_segment(here.drop_first(), '.') =~= seg_old + (seq![here[0]]
                + first_segment(here.drop_first(), '.')));
        }
        i = i + 1;
    }
    let first = string_of(&seg);
    let suffix = to_lowercase(first.as_str());
    if str_is(suffix.as_str(), IGNORED_SUFFIX) {
        None
    } else {
        Some(suffix)
    }
}

/// A media player as far as the indicator needs it.
pub struct TrackedPlayer {
    pub status: PlaybackStatus,
    /// Lowercased desktop entry the player names, if any.
    pub desktop_entry: Option<String>,
    pub bus_suffix: String,
}

impl TrackedPlayer {
    /// A player as its properties were read: the desktop entry it names is
    /// kept lowercased.
    pub fn new(status: PlaybackStatus, desktop_entry: Option<&str>, bus_suffix: String) -> (p: Self)
        ensures
            p.status == status,
            p.bus_suffix == bus_suffix,
            p.desktop_entry.deep_view() == match desktop_entry {
                Some(e) => Some(lowercase(e@)),
                None => None,
            },
    {
        TrackedPlayer {
            status,
            desktop_entry: match desktop_entry {
                Some(e) => Some(to_lowercase(e)),
                None => None,
            },
            bus_suffix,
        }
    }
}

/// The first position of `x` in `s`.
pub open spec fn position(s: Seq<Seq<char>>, x: Seq<char>) -> Option<int> {
    if exists|i: int| 0 <= i < s.len() && s[i] == x && forall|k: int| 0 <= k < i ==> s[k] != x {
        Some(choose|i: int| 0 <= i < s.len() && s[i] == x && forall|k: int| 0 <= k < i ==> s[k] != x)
    } else {
        None
    }
}

/// The players on the bus, by bus name, in the order they were first seen.
pub struct PlayerList {
    entries: Vec<(String, TrackedPlayer)>,
}

impl PlayerList {
    /// The bus names held, in order.
    pub closed spec fn names(&self) -> Seq<Seq<char>> {
        self.entries@.map_values(|e: (String, TrackedPlayer)| e.0@)
    }

    /// The players held, in the order of their names.
    pub closed spec fn players(&self) -> Seq<TrackedPlayer> {
        self.entries@.map_values(|e: (String, TrackedPlayer)| e.1)
    }

    /// No player yet.
    pub fn new() -> (l: Self)
        ensures
            l.names().len() == 0,
            l.players().len() == 0,
    {
        let l = PlayerList { entries: Vec::new() };
        proof {
            assert(l.names() =~= Seq::empty());
            assert(l.players() =~= Seq::empty());
        }
        l
    }

    /// The number of players.
    pub fn len(&self) -> (n: usize)
        ensures
            n == self.names().len(),
            n == self.players().len(),
    {
        self.entries.len()
    }

    /// The bus name at position `i`.
    pub fn name_at(&self, i: usize) -> (n: &String)
        requires
            i < self.names().len(),
        ensures
            n@ == self.names()[i as int],
    {
        &self.entries[i].0
    }

    fn find(&self, name: &str) -> (r: Option<usize>)
        ensures
            match r {
                Some(i) => position(self.names(), name@) == Some(i as int),
                None => position(self.names(), name@) is None,
            },
    {
        let ghost names = self.names();
        let key = name.to_string();
        let mut i: usize = 0;
        while i < self.entries.len()
            invariant
                i <= self.entries@.len(),
                names == self.names(),
                names.len() == self.entries@.len(),
                key@ == name@,
                forall|k: int| 0 <= k < i ==> names[k] != name@,
            decreases self.entries@.len() - i,
        {
            proof {
                assert(names[i as int] == self.entries@[i as int].0@);
            }
            if self.entries[i].0.eq(&key) {
                proof {
                    let j = choose|j: int|
                        0 <= j < names.len() && names[j] == name@ && forall|k: int| 0 <= k < j ==> names[k] != name@;
                    if j < i {
                        assert(names[j] != name@);
                    }
                    if i < j {
                        assert(names[i as int] != name@);
                    }
                }
                return Some(i);
            }
            i = i + 1;
        }
        None
    }

    /// Records `player` under `name`: it replaces the player held under that
    /// name, else it is added last.
    pub fn insert(&mut self, name: String, player: TrackedPlayer)
        ensures
            match position(old(self).names(), name@) {
                Some(i) => final(self).names() == old(self).names() && final(self).players() == old(self).players().update(i, player),
                None => final(self).names() == old(self).names().push(name@) && final(self).players()
                    == old(self).players().push(player),
            },
    {
        let ghost nv = name@;
        match self.find(name.as_str()) {
            Some(i) => {
                self.entries.set(i, (name, player));
                proof {
                    assert(self.names() =~= old(self).names());
                    assert(self.players() =~= old(self).players().update(i as int, player));
                }
            },
            None => {
                self.entries.push((name, player));
                proof {
                    assert(self.names() =~= old(self).names().push(nv));
                    assert(self.players() =~= old(self).players().push(player));
                }
            },
        }
    }

    /// Drops the player held under `name`; says whether there was one.
    pub fn remove(&mut self, name: &str) -> (removed: bool)
        ensures
            match position(old(self).names(), name@) {
                Some(i) => removed && final(self).names() == old(self).names().remove(i) && final(self).players() == old(self).players().remove(i),
                None => !removed && final(self).names() == old(self).names() && final(self).players()
                    == old(self).players(),
            },
    {
        match self.find(name) {
            Some(i) => {
                self.entries.remove(i);
                proof {
                    assert(self.names() =~= old(self).names().remove(i as int));
                    assert(self.players() =~= old(self).players().remove(i as int));
                }
                true
            },
            None => false,
        }
    }

    /// Applies changed properties to the player held under `name`; says
    /// whether the state is to be sent again.
    pub fn apply_changes(
        &mut self,
        name: &str,
        interface: &str,
        playback_status: Option<&str>,
        desktop_entry: Option<&str>,
    ) -> (updated: bool)
        ensures
            final(self).names() == old(self).names(),
            final(self).players().len() == old(self).players().len(),
            match position(old(self).names(), name@) {
                Some(i) => (forall|j: int|
                    0 <= j < old(self).players().len() && j != i ==> #[trigger] final(self).players()[j]
                        == old(self).players()[j]) && player_changed(
                    old(self).players()[i],
                    final(self).players()[i],
                    updated,
                    interface@,
                    opt_chars(playback_status),
                    opt_chars(desktop_entry),
                ),
                None => !updated && final(self).players() == old(self).players(),
            },
    {
        match self.find(name) {
            Some(i) => {
                let (n, mut p) = self.entries.remove(i);
                let updated = apply_changed_properties(&mut p, interface, playback_status, desktop_entry);
                self.entries.insert(i, (n, p));
                proof {
                    assert(self.names() =~= old(self).names());
                    assert forall|j: int|
                        0 <= j < old(self).players().len() && j != i implies #[trigger] self.players()[j]
                            == old(self).players()[j] by {}
                }
                updated
            },
            None => false,
        }
    }

    /// The merged playback state of the players held.
    pub fn audio_state(&self) -> (state: AudioState)
        ensures
            state.by_bus_suffix@ == by_suffix(self.players()),
            state.by_desktop_entry@ == by_entry(self.players()),
    {
        let ghost ps = self.players();
        let mut state = AudioState::default();
        let mut i: usize = 0;
        while i < self.entries.len()
            invariant
                i <= self.entries@.len(),
                ps == self.players(),
                ps.len() == self.entries@.len(),
                state.by_bus_suffix@ == by_suffix(ps.take(i as int)),
                state.by_desktop_entry@ == by_entry(ps.take(i as int)),
            decreases self.entries@.len() - i,
        {
            proof {
                assert(ps.take(i + 1).drop_last() =~= ps.take(i as int));
                assert(ps[i as int] == self.entries@[i as int].1);
            }
            let player = &self.entries[i].1;
            merge_exec(&mut state.by_bus_suffix, &player.bus_suffix, player.status);
            if let Some(entry) = &player.desktop_entry {
                merge_exec(&mut state.by_desktop_entry, entry, player.status);
            }
            i = i + 1;
        }
        proof {
            assert(ps.take(ps.len() as int) =~= ps);
        }
        state
    }
}

/// The playback state of all players, merged by desktop entry and by bus
/// suffix.
pub struct AudioState {
    pub by_desktop_entry: StrMap<PlaybackStatus>,
    pub by_bus_suffix: StrMap<PlaybackStatus>,
}

impl Default for AudioState {
    fn default() -> (r: Self)
        ensures
            r.by_desktop_entry@ == Map::<Seq<char>, PlaybackStatus>::empty(),
            r.by_bus_suffix@ == Map::<Seq<char>, PlaybackStatus>::empty(),
    {
        AudioState { by_desktop_entry: StrMap::new(), by_bus_suffix: StrMap::new() }
    }
}

/// `m` after merging `status` in under `key`.
pub open spec fn merge_into(m: Map<Seq<char>, PlaybackStatus>, key: Seq<char>, status: PlaybackStatus) -> Map<
    Seq<char>,
    PlaybackStatus,
> {
    if m.contains_key(key) {
        m.insert(key, more_active(m[key], status))
    } else {
        m.insert(key, status)
    }
}

/// The players' statuses merged by bus suffix.
pub open spec fn by_suffix(players: Seq<TrackedPlayer>) -> Map<Seq<char>, PlaybackStatus>
    decreases players.len(),
{
    if players.len() == 0 {
        Map::empty()
    } else {
        merge_into(by_suffix(players.drop_last()), players.last().bus_suffix@, players.last().status)
    }
}

/// The players' statuses merged by desktop entry, for those that name one.
pub open spec fn by_entry(players: Seq<TrackedPlayer>) -> Map<Seq<char>, PlaybackStatus>
    decreases players.len(),
{
    if players.len() == 0 {
        Map::empty()
    } else {
        let prev = by_entry(players.drop_last());
        match players.last().desktop_entry {
            Some(e) => merge_into(prev, e@, players.last().status),
            None => prev,
        }
    }
}

fn merge_exec(m: &mut StrMap<PlaybackStatus>, key: &String, status: PlaybackStatus)
    ensures
        final(m)@ == merge_into(old(m)@, key@, status),
{
    let merged = match m.get(key.as_str()) {
        Some(existing) => PlaybackStatus::most_active(*existing, status),
        None => status,
    };
    m.insert(key.clone(), merged);
}

/// The merged playback state of `players`.
pub fn build_audio_state(players: &Vec<TrackedPlayer>) -> (state: AudioState)
    ensures
        state.by_bus_suffix@ == by_suffix(players@),
        state.by_desktop_entry@ == by_entry(players@),
{
    let mut state = AudioState::default();
    let mut i: usize = 0;
    while i < players.len()
        invariant
            i <= players@.len(),
            state.by_bus_suffix@ == by_suffix(players@.take(i as int)),
            state.by_desktop_entry@ == by_entry(players@.take(i as int)),
        decreases players@.len() - i,
    {
        proof {
            assert(players@.take(i + 1).drop_last() =~= players@.take(i as int));
        }
        let player = &players[i];
        merge_exec(&mut state.by_bus_suffix, &player.bus_suffix, player.status);
        if let Some(entry) = &player.desktop_entry {
            merge_exec(&mut state.by_desktop_entry, entry, player.status);
        }
        i = i + 1;
    }
    proof {
        assert(players@.take(players@.len() as int) =~= players@);
    }
    state
}

/// Merging keeps, under each suffix, a status of a player with that suffix,
/// and none of lower priority than any such player's.
pub proof fn law_merged_status_is_most_active(players: Seq<TrackedPlayer>, key: Seq<char>)
    ensures
        by_suffix(players).contains_key(key) <==> exists|i: int|
            0 <= i < players.len() && (#[trigger] players[i]).bus_suffix@ == key,
        by_suffix(players).contains_key(key) ==> (exists|i: int|
            0 <= i < players.len() && (#[trigger] players[i]).bus_suffix@ == key
                && players[i].status == by_suffix(players)[key]),
        forall|i: int|
            0 <= i < players.len() && (#[trigger] players[i]).bus_suffix@ == key ==> priority_of(
                players[i].status,
            ) <= priority_of(by_suffix(players)[key]),
    decreases players.len(),
{
    if players.len() > 0 {
        let d = players.drop_last();
        law_merged_status_is_most_active(d, key);
        let l = players.last();
        assert(players[players.len() - 1] == l);
        assert forall|i: int| 0 <= i < d.len() implies #[trigger] players[i] == d[i] by {}
        if by_suffix(d).contains_key(key) {
            let j = choose|j: int|
                0 <= j < d.len() && (#[trigger] d[j]).bus_suffix@ == key && d[j].status == by_suffix(
                    d,
                )[key];
            assert(players[j] == d[j]);
        }
        if exists|i: int| 0 <= i < players.len() && (#[trigger] players[i]).bus_suffix@ == key {
            let i = choose|i: int| 0 <= i < players.len() && (#[trigger] players[i]).bus_suffix@ == key;
            if i < d.len() {
                assert(d[i] == players[i]);
            }
        }
    }
}

/// Merging keeps, under each desktop entry, a status of a player naming that
/// entry, and none of lower priority than any such player's.
pub proof fn law_merged_entry_is_most_active(players: Seq<TrackedPlayer>, key: Seq<char>)
    ensures
        by_entry(players).contains_key(key) <==> exists|i: int|
            0 <= i < players.len() && (#[trigger] players[i]).desktop_entry.deep_view() == Some(key),
        by_entry(players).contains_key(key) ==> (exists|i: int|
            0 <= i < players.len() && (#[trigger] players[i]).desktop_entry.deep_view() == Some(key)
                && players[i].status == by_entry(players)[key]),
        forall|i: int|
            0 <= i < players.len() && (#[trigger] players[i]).desktop_entry.deep_view() == Some(key)
                ==> priority_of(players[i].status) <= priority_of(by_entry(players)[key]),
    decreases players.len(),
{
    if players.len() > 0 {
        let d = players.drop_last();
        law_merged_entry_is_most_active(d, key);
        let l = players.last();
        assert(players[players.len() - 1] == l);
        assert forall|i: int| 0 <= i < d.len() implies #[trigger] players[i] == d[i] by {}
        if by_entry(d).contains_key(key) {
            let j = choose|j: int|
                0 <= j < d.len() && (#[trigger] d[j]).desktop_entry.deep_view() == Some(key)
                    && d[j].status == by_entry(d)[key];
            assert(players[j] == d[j]);
        }
        if exists|i: int|
            0 <= i < players.len() && (#[trigger] players[i]).desktop_entry.deep_view() == Some(key) {
            let i = choose|i: int|
                0 <= i < players.len() && (#[trigger] players[i]).desktop_entry.deep_view() == Some(key);
            if i < d.len() {
                assert(d[i] == players[i]);
            }
        }
    }
}

/// The status shown for a window of `app_id`: that of its lowercased id as
/// a desktop entry, else as a bus suffix.
pub open spec fn status_for(state: AudioState, app_id: Option<Seq<char>>) -> Option<PlaybackStatus> {
    match app_id {
        Some(id) => {
            let l = lowercase(id);
            if state.by_desktop_entry@.contains_key(l) {
                Some(state.by_desktop_entry@[l])
            } else if state.by_bus_suffix@.contains_key(l) {
                Some(state.by_bus_suffix@[l])
            } else {
                None
            }
        },
        None => None,
    }
}

/// The status shown for a window of `app_id`.
pub fn audio_status_for(state: &AudioState, app_id: Option<&str>) -> (r: Option<PlaybackStatus>)
    ensures
        r == status_for(
            *state,
            match app_id {
                Some(a) => Some(a@),
                None => None,
            },
        ),
{
    match app_id {
        Some(id) => {
            let lower = to_lowercase(id);
            match state.by_desktop_entry.get(lower.as_str()) {
                Some(s) => Some(*s),
                None => match state.by_bus_suffix.get(lower.as_str()) {
                    Some(s) => Some(*s),
                    None => None,
                },
            }
        },
        None => None,
    }
}

/// What the playback indicator of a button does.
pub enum IndicatorUpdate {
    /// The indicator is off; nothing changes.
    Keep,
    Hide,
    Show(String),
}

/// The indicator for a status: the playing icon while playing, the paused
/// icon while paused, hidden otherwise; untouched when the indicator is off.
pub fn update_audio_state(config: &AudioIndicatorConfig, status: Option<PlaybackStatus>) -> (r: IndicatorUpdate)
    ensures
        !config.enabled ==> r is Keep,
        config.enabled ==> match status {
            Some(PlaybackStatus::Playing) => r matches IndicatorUpdate::Show(i) && i@ == config.playing_icon@,
            Some(PlaybackStatus::Paused) => r matches IndicatorUpdate::Show(i) && i@ == config.muted_icon@,
            _ => r is Hide,
        },
{
    if !config.enabled {
        return IndicatorUpdate::Keep;
    }
    match status {
        Some(PlaybackStatus::Playing) => IndicatorUpdate::Show(config.playing_icon.clone()),
        Some(PlaybackStatus::Paused) => IndicatorUpdate::Show(config.muted_icon.clone()),
        _ => IndicatorUpdate::Hide,
    }
}

/// What an owner change of a bus name means for the players tracked.
pub enum NameChange {
    Ignore,
    /// The player under this name went away.
    Vanished,
    /// A player appeared under this name, with this suffix.
    Appeared { bus_suffix: String },
}

/// An owner change of `name`: a media player name (not the proxy daemon)
/// that lost its owner vanished; one that gained a first owner appeared.
pub fn name_owner_changed(name: &str, old_owner: &str, new_owner: &str) -> (r: NameChange)
    ensures
        match bus_suffix_of(name@) {
            None => r is Ignore,
            Some(s) => if new_owner@.len() == 0 {
                r is Vanished
            } else if old_owner@.len() == 0 {
                r matches NameChange::Appeared { bus_suffix } && bus_suffix@ == s
            } else {
                r is Ignore
            },
        },
{
    match extract_bus_suffix(name) {
        None => NameChange::Ignore,
        Some(bus_suffix) => {
            if new_owner.is_empty() {
                NameChange::Vanished
            } else if old_owner.is_empty() {
                NameChange::Appeared { bus_suffix }
            } else {
                NameChange::Ignore
            }
        },
    }
}

/// Whether `after` is `before` with the changed properties applied, and
/// `updated` says whether the state is to be sent again: a playback status
/// counts when the player interface changed, a desktop entry (lowercased)
/// from either interface; other interfaces change nothing.
pub open spec fn player_changed(
    before: TrackedPlayer,
    after: TrackedPlayer,
    updated: bool,
    interface: Seq<char>,
    playback_status: Option<Seq<char>>,
    desktop_entry: Option<Seq<char>>,
) -> bool {
    let is_player = interface == PLAYER_INTERFACE@;
    let is_root = interface == MPRIS_ROOT_INTERFACE@;
    let new_status = match playback_status {
        Some(s) => if is_player {
            status_of(s)
        } else {
            before.status
        },
        None => before.status,
    };
    if !is_player && !is_root {
        after == before && !updated
    } else {
        &&& after.status == new_status
        &&& after.bus_suffix == before.bus_suffix
        &&& after.desktop_entry.deep_view() == match desktop_entry {
            Some(e) => Some(lowercase(e)),
            None => before.desktop_entry.deep_view(),
        }
        &&& updated == (new_status != before.status || desktop_entry is Some)
    }
}

/// The view of an optional string.
pub open spec fn opt_chars(s: Option<&str>) -> Option<Seq<char>> {
    match s {
        Some(t) => Some(t@),
        None => None,
    }
}

/// Applies changed properties of a player: a playback status when the
/// player interface changed, a desktop entry (lowercased) from either
/// interface. Returns whether anything is to be sent again.
pub fn apply_changed_properties(
    player: &mut TrackedPlayer,
    interface: &str,
    playback_status: Option<&str>,
    desktop_entry: Option<&str>,
) -> (updated: bool)
    ensures
        player_changed(
            *old(player),
            *final(player),
            updated,
            interface@,
            opt_chars(playback_status),
            opt_chars(desktop_entry),
        ),
{
    let is_player = str_is(interface, PLAYER_INTERFACE);
    let is_root = str_is(interface, MPRIS_ROOT_INTERFACE);
    if !is_player && !is_root {
        return false;
    }
    let mut updated = false;
    if is_player {
        if let Some(s) = playback_status {
            let new_status = PlaybackStatus::parse(s);
            if player.status != new_status {
                player.status = new_status;
                updated = true;
            }
        }
    }
    if let Some(e) = desktop_entry {
        player.desktop_entry = Some(to_lowercase(e));
        updated = true;
    }
    updated
}

/// A playing player outranks a paused one, which outranks a stopped one,
/// whichever of the two comes first.
pub proof fn law_playing_beats_paused_beats_stopped(x: PlaybackStatus)
    ensures
        more_active(PlaybackStatus::Playing, x) == PlaybackStatus::Playing,
        more_active(x, PlaybackStatus::Playing) == PlaybackStatus::Playing,
        more_active(PlaybackStatus::Paused, PlaybackStatus::Stopped) == PlaybackStatus::Paused,
        more_active(PlaybackStatus::Stopped, PlaybackStatus::Paused) == PlaybackStatus::Paused,
        more_active(x, x) == x,
        more_active(PlaybackStatus::Stopped, x) == x,
        more_active(x, PlaybackStatus::Stopped) == x,
{
}

} // verus!
