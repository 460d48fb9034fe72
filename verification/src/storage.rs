//! The sound catalogue and where it is kept: storage paths, the catalogue
//! of uploaded sounds, which catalogue entries survive start-up, and
//! how much of each sound is loaded ahead of time.

use crate::text::string_views;
use std::path::PathBuf;
use vstd::prelude::*;

verus! {

broadcast use vstd::seq_lib::group_seq_properties;

#[verifier::external_type_specification]
#[verifier::external_body]
pub struct ExPathBuf(PathBuf);

/// Name of the catalogue file inside the configuration directory.
pub const SOUNDS_CONFIG_FILE_NAME: &'static str = "sounds.json";

/// Name of the directory inside the data directory that holds sound files.
pub const SOUNDS_DIR_NAME: &'static str = "sounds";

/// The path that `Path::join` makes of `base` and `name`.
pub uninterp spec fn path_join(base: PathBuf, name: Seq<char>) -> PathBuf;

/// Calls `Path::join` on `base` and `name`. Its result, a function of its
/// arguments for the target the program is built for, is named `path_join`;
/// nothing more about it is stated, as `PathBuf` has no model here.
#[verifier::external_body]
fn join_path(base: &PathBuf, name: &str) -> (r: PathBuf)
    ensures
        r == path_join(*base, name@),
{
    base.join(name)
}

/// Where the configuration lives.
#[derive(Debug)]
pub struct ConfigPaths {
    pub root_dir: PathBuf,
    pub sounds: PathBuf,
}

/// Where the sound data lives.
#[derive(Debug)]
pub struct DataPaths {
    pub root_dir: PathBuf,
    pub sounds_dir: PathBuf,
}

/// All paths the soundpad reads and writes.
#[derive(Debug)]
pub struct StoragePaths {
    pub config: ConfigPaths,
    pub data: DataPaths,
}

impl StoragePaths {
    /// Lays out the storage paths below the given configuration and data
    /// directories: the catalogue file in the first, the sounds directory
    /// in the second.
    pub fn from_dirs(config_dir: PathBuf, data_dir: PathBuf) -> (paths: StoragePaths)
        ensures
            paths.config.root_dir == config_dir,
            paths.config.sounds == path_join(config_dir, SOUNDS_CONFIG_FILE_NAME@),
            paths.data.root_dir == data_dir,
            paths.data.sounds_dir == path_join(data_dir, SOUNDS_DIR_NAME@),
    {
        let sounds = join_path(&config_dir, SOUNDS_CONFIG_FILE_NAME);
        let sounds_dir = join_path(&data_dir, SOUNDS_DIR_NAME);
        StoragePaths {
            config: ConfigPaths { root_dir: config_dir, sounds },
            data: DataPaths { root_dir: data_dir, sounds_dir },
        }
    }
}

/// One uploaded sound: its id and the name the user gave it.
#[derive(Debug)]
pub struct Sound {
    pub uuid: String,
    pub name: String,
}

/// The catalogue of uploaded sounds, in upload order.
#[derive(Debug)]
pub struct SoundsConfig {
    pub sounds: Vec<Sound>,
}

/// The text written to a fresh catalogue file.
pub fn empty_sounds_config_text() -> (t: &'static str)
    ensures
        t@ == "{ \"sounds\": [] }"@,
{
    "{ \"sounds\": [] }"
}

impl SoundsConfig {
    /// A catalogue without sounds.
    pub fn empty() -> (c: SoundsConfig)
        ensures
            c.sounds@.len() == 0,
    {
        SoundsConfig { sounds: Vec::new() }
    }

    /// Appends a newly uploaded sound to the catalogue.
    pub fn add_sound(&mut self, uuid: String, name: String)
        ensures
            final(self).sounds@ == old(self).sounds@.push(Sound { uuid, name }),
    {
        self.sounds.push(Sound { uuid, name });
    }
}

/// The file name under which the sound with id `uuid` is stored.
pub open spec fn sound_file_name_text(uuid: Seq<char>) -> Seq<char> {
    uuid + ".wav"@
}

/// The file name under which the sound with id `uuid` is stored.
pub fn sound_file_name(uuid: &str) -> (f: String)
    ensures
        f@ == sound_file_name_text(uuid@),
{
    let mut f = uuid.to_owned();
    f.append(".wav");
    f
}

/// The path of the sound file with id `uuid` inside `sounds_dir`: the
/// directory joined with the sound's file name.
pub fn sound_file_path(sounds_dir: &PathBuf, uuid: &str) -> (p: PathBuf)
    ensures
        p == path_join(*sounds_dir, sound_file_name_text(uuid@)),
{
    let name = sound_file_name(uuid);
    join_path(sounds_dir, name.as_str())
}

/// The sounds whose flag is set, in their order.
pub open spec fn kept_sounds(sounds: Seq<Sound>, keep: Seq<bool>) -> Seq<Sound>
    decreases sounds.len(),
{
    if sounds.len() == 0 {
        Seq::empty()
    } else {
        let rest = kept_sounds(sounds.drop_first(), keep.drop_first());
        if keep[0] {
            seq![sounds[0]] + rest
        } else {
            rest
        }
    }
}

/// Keeping sounds goes sound by sound: nothing is kept of no sounds, and a
/// sound added at the end is kept, after the others kept, exactly when its
/// flag is set; a sound whose flag is clear is never kept.
pub proof fn law_kept_sounds_step(sounds: Seq<Sound>, keep: Seq<bool>, x: Sound, flag: bool)
    requires
        sounds.len() == keep.len(),
    ensures
        kept_sounds(Seq::<Sound>::empty(), Seq::<bool>::empty()) == Seq::<Sound>::empty(),
        kept_sounds(sounds.push(x), keep.push(flag)) == if flag {
            kept_sounds(sounds, keep).push(x)
        } else {
            kept_sounds(sounds, keep)
        },
    decreases sounds.len(),
{
    let s2 = sounds.push(x);
    let k2 = keep.push(flag);
    if sounds.len() == 0 {
        assert(s2.drop_first() =~= Seq::<Sound>::empty());
        assert(k2.drop_first() =~= Seq::<bool>::empty());
        assert(kept_sounds(s2.drop_first(), k2.drop_first()) =~= Seq::<Sound>::empty());
        assert(kept_sounds(sounds, keep) =~= Seq::<Sound>::empty());
        assert(kept_sounds(s2, k2) =~= if flag {
            Seq::<Sound>::empty().push(x)
        } else {
            Seq::<Sound>::empty()
        });
    } else {
        law_kept_sounds_step(sounds.drop_first(), keep.drop_first(), x, flag);
        assert(s2.drop_first() =~= sounds.drop_first().push(x));
        assert(k2.drop_first() =~= keep.drop_first().push(flag));
        assert(s2[0] == sounds[0]);
        assert(k2[0] == keep[0]);
        let rest = kept_sounds(sounds.drop_first(), keep.drop_first());
        if flag {
            assert(seq![sounds[0]] + rest.push(x) =~= (seq![sounds[0]] + rest).push(x));
        }
    }
}

/// As many sounds are kept as flags are set.
pub proof fn law_kept_sounds_count(sounds: Seq<Sound>, keep: Seq<bool>)
    requires
        sounds.len() == keep.len(),
    ensures
        kept_sounds(sounds, keep).len() == keep.filter(|b: bool| b).len(),
    decreases sounds.len(),
{
    reveal_with_fuel(Seq::filter, 1);
    if sounds.len() > 0 {
        let s0 = sounds.drop_last();
        let k0 = keep.drop_last();
        law_kept_sounds_count(s0, k0);
        law_kept_sounds_step(s0, k0, sounds.last(), keep.last());
        assert(s0.push(sounds.last()) =~= sounds);
        assert(k0.push(keep.last()) =~= keep);
        assert(keep.drop_last() == k0);
    }
}

/// Drops from the catalogue every sound whose file is missing: `available`
/// holds, for each sound in order, whether its file exists.
pub fn retain_available(sounds: &mut Vec<Sound>, available: &Vec<bool>)
    requires
        old(sounds)@.len() == available@.len(),
    ensures
        final(sounds)@ == kept_sounds(old(sounds)@, available@),
{
    let ghost all = sounds@;
    let mut i: usize = sounds.len();
    assert(all.skip(i as int) =~= Seq::<Sound>::empty());
    assert(all.take(i as int) =~= all);
    while i > 0
        invariant
            i <= all.len(),
            all.len() == available@.len(),
            sounds@ == all.take(i as int) + kept_sounds(
                all.skip(i as int),
                available@.skip(i as int),
            ),
        decreases i,
    {
        i = i - 1;
        let ghost tail = kept_sounds(all.skip(i + 1), available@.skip(i + 1));
        assert(all.skip(i as int).drop_first() =~= all.skip(i + 1));
        assert(available@.skip(i as int).drop_first() =~= available@.skip(i + 1));
        assert(all.skip(i as int)[0] == all[i as int]);
        assert(available@.skip(i as int)[0] == available@[i as int]);
        assert(all.take(i + 1) =~= all.take(i as int).push(all[i as int]));
        if !available[i] {
            sounds.remove(i);
            assert(sounds@ =~= all.take(i as int) + tail);
        } else {
            assert(all.take(i as int) + kept_sounds(all.skip(i as int), available@.skip(i as int))
                =~= all.take(i + 1) + tail);
        }
    }
    assert(all.skip(0) =~= all);
    assert(available@.skip(0) =~= available@);
    assert(all.take(0) =~= Seq::<Sound>::empty());
    assert(sounds@ =~= kept_sounds(all, available@));
}

/// Number of samples that are read ahead of time from a sound file of at
/// most `max_preload_size_mb` mebibytes of 4-byte samples.
pub fn preload_sample_limit(max_preload_size_mb: u32) -> (n: usize)
    requires
        max_preload_size_mb * 1024 * 1024 <= u32::MAX,
    ensures
        n == max_preload_size_mb * 1024 * 1024 / 4,
{
    (max_preload_size_mb * 1024 * 1024 / 4) as usize
}

/// What the soundpad holds of a sound after start-up, without the samples.
#[derive(Debug, Clone, Copy, PartialEq, Eq, Structural)]
pub enum ClipState {
    /// The whole sound is in memory: `len` samples.
    Preloaded { len: usize },
    /// Only the first `samples_read` samples are in memory.
    Partial { samples_read: usize },
    /// Reading the sound failed.
    NotLoaded,
}

/// The state of a sound of which `samples_read` samples were read with a
/// limit of `max_samples`: reaching the limit means the file may hold more.
pub fn loaded_clip_state(samples_read: usize, max_samples: usize) -> (c: ClipState)
    ensures
        c == (if samples_read >= max_samples {
            ClipState::Partial { samples_read }
        } else {
            ClipState::Preloaded { len: samples_read }
        }),
{
    if samples_read >= max_samples {
        ClipState::Partial { samples_read }
    } else {
        ClipState::Preloaded { len: samples_read }
    }
}


/// The slot of the last entry of `ids` equal to `id`.
pub open spec fn slot_in(ids: Seq<Seq<char>>, id: Seq<char>) -> Option<nat>
    decreases ids.len(),
{
    if ids.len() == 0 {
        None
    } else if ids.last() == id {
        Some((ids.len() - 1) as nat)
    } else {
        slot_in(ids.drop_last(), id)
    }
}

proof fn lemma_slot_in_bounds(ids: Seq<Seq<char>>, id: Seq<char>)
    ensures
        slot_in(ids, id) matches Some(s) ==> s < ids.len() && ids[s as int] == id,
    decreases ids.len(),
{
    if ids.len() > 0 && ids.last() != id {
        lemma_slot_in_bounds(ids.drop_last(), id);
    }
}

/// The clips loaded at start-up, found by sound id: each id has at most one
/// slot, and storing a clip again under the same id replaces it.
#[derive(Debug)]
pub struct ClipTable<T> {
    ids: Vec<String>,
    values: Vec<T>,
}

impl<T> View for ClipTable<T> {
    type V = Map<Seq<char>, T>;

    /// The clip stored under each sound id.
    closed spec fn view(&self) -> Map<Seq<char>, T> {
        Map::new(
            |k: Seq<char>| slot_in(string_views(self.ids@), k) is Some,
            |k: Seq<char>| self.values@[slot_in(string_views(self.ids@), k)->0 as int],
        )
    }
}

impl<T> ClipTable<T> {
    /// Every slot holds one clip.
    pub closed spec fn wf(&self) -> bool {
        self.ids@.len() == self.values@.len()
    }

    /// A table without clips.
    pub fn new() -> (t: ClipTable<T>)
        ensures
            t.wf(),
            t@ == Map::<Seq<char>, T>::empty(),
    {
        let t = ClipTable { ids: Vec::new(), values: Vec::new() };
        assert(t@ =~= Map::<Seq<char>, T>::empty());
        t
    }

    fn slot_of(&self, id: &str) -> (r: Option<usize>)
        ensures
            r == match slot_in(string_views(self.ids@), id@) {
                Some(s) => Some(s as usize),
                None => None::<usize>,
            },
            r matches Some(s) ==> s < self.ids@.len(),
    {
        let ghost all = string_views(self.ids@);
        proof {
            lemma_slot_in_bounds(all, id@);
        }
        let key = id.to_owned();
        let mut i: usize = self.ids.len();
        assert(all.take(i as int) =~= all);
        while i > 0
            invariant
                i <= self.ids@.len(),
                all == string_views(self.ids@),
                key@ == id@,
                slot_in(all, id@) == slot_in(all.take(i as int), id@),
            decreases i,
        {
            let ghost pre = all.take(i as int);
            assert(pre.last() == self.ids@[i - 1]@);
            if self.ids[i - 1] == key {
                return Some(i - 1);
            }
            assert(pre.drop_last() =~= all.take(i - 1));
            i = i - 1;
        }
        assert(all.take(0) =~= Seq::<Seq<char>>::empty());
        None
    }

    /// The clip stored under the sound id `id`, if any.
    pub fn get(&self, id: &str) -> (r: Option<&T>)
        requires
            self.wf(),
        ensures
            r is Some <==> self@.dom().contains(id@),
            r matches Some(v) ==> *v == self@[id@],
    {
        let count = self.ids.len();
        proof {
            lemma_slot_in_bounds(string_views(self.ids@), id@);
            assert(string_views(self.ids@).len() == count);
        }
        match self.slot_of(id) {
            Some(s) => Some(&self.values[s]),
            None => None,
        }
    }

    /// Stores `value` under the sound id `id`, replacing a clip stored
    /// there before.
    pub fn insert(&mut self, id: &str, value: T)
        requires
            old(self).wf(),
        ensures
            final(self).wf(),
            final(self)@ == old(self)@.insert(id@, value),
    {
        let ghost before_ids = string_views(self.ids@);
        let ghost before = self@;
        let count = self.ids.len();
        proof {
            lemma_slot_in_bounds(before_ids, id@);
            assert(before_ids.len() == count);
        }
        match self.slot_of(id) {
            Some(s) => {
                assert(slot_in(before_ids, id@) == Some(s as nat));
                let ghost old_values = self.values@;
                self.values.set(s, value);
                assert(self.values@ == old_values.update(s as int, value));
                assert forall|k: Seq<char>| k != id@ && #[trigger] slot_in(before_ids, k) is Some implies slot_in(before_ids, k)->0 != s by {
                    lemma_slot_in_bounds(before_ids, k);
                }
                assert(string_views(self.ids@) == before_ids);
                assert forall|k: Seq<char>| #[trigger] self@.dom().contains(k) implies self@[k]
                    == before.insert(id@, value)[k] by {
                    if k != id@ {
                        lemma_slot_in_bounds(before_ids, k);
                        assert(self@[k] == self.values@[slot_in(before_ids, k)->0 as int]);
                        assert(before[k] == old_values[slot_in(before_ids, k)->0 as int]);
                    }
                }
                assert(self@ =~= before.insert(id@, value));
            },
            None => {
                let ghost n = self.ids@.len();
                self.ids.push(id.to_owned());
                self.values.push(value);
                let ghost after_ids = string_views(self.ids@);
                assert(after_ids =~= before_ids.push(id@));
                assert(after_ids.drop_last() =~= before_ids);
                assert forall|k: Seq<char>| k != id@ implies #[trigger] slot_in(after_ids, k) == slot_in(before_ids, k) by {
                    lemma_slot_in_bounds(before_ids, k);
                }
                assert forall|k: Seq<char>| k != id@ && #[trigger] slot_in(before_ids, k) is Some implies slot_in(before_ids, k)->0 < n by {
                    lemma_slot_in_bounds(before_ids, k);
                }
                assert(self@ =~= before.insert(id@, value));
            },
        }
    }
}

/// The clips that loading stores: for each sound in order whose clip was
/// read, its clip under its id, a later sound replacing an earlier one of
/// the same id.
pub open spec fn load_map<T>(sounds: Seq<Sound>, loaded: Seq<Option<T>>) -> Map<Seq<char>, T>
    decreases sounds.len(),
{
    if sounds.len() == 0 || loaded.len() == 0 {
        Map::empty()
    } else {
        let m = load_map(sounds.drop_last(), loaded.drop_last());
        match loaded.last() {
            Some(v) => m.insert(sounds.last().uuid@, v),
            None => m,
        }
    }
}

/// Whether each sound's file was there to be read.
pub open spec fn found_flags<T>(loaded: Seq<Option<T>>) -> Seq<bool> {
    loaded.map_values(|o: Option<T>| o is Some)
}

/// Loads the catalogue's clips: `loaded` holds, for each sound in order,
/// its clip, or `None` where its file is missing. Sounds without a file
/// leave the catalogue, and every other sound's clip is stored under its id.
pub fn load_clips<T>(sounds: &mut Vec<Sound>, loaded: Vec<Option<T>>) -> (table: ClipTable<T>)
    requires
        old(sounds)@.len() == loaded@.len(),
    ensures
        table.wf(),
        table@ == load_map(old(sounds)@, loaded@),
        final(sounds)@ == kept_sounds(old(sounds)@, found_flags(loaded@)),
{
    let ghost all = sounds@;
    let ghost all_loaded = loaded@;
    let n = sounds.len();
    let mut rest = loaded;
    let mut flags: Vec<bool> = Vec::new();
    let mut table: ClipTable<T> = ClipTable::new();
    let mut i: usize = 0;
    assert(all_loaded.skip(0) =~= all_loaded);
    assert(all.take(0) =~= Seq::<Sound>::empty());
    while i < n
        invariant
            n == all.len(),
            all.len() == all_loaded.len(),
            sounds@ == all,
            i <= n,
            rest@ == all_loaded.skip(i as int),
            flags@ == found_flags(all_loaded.take(i as int)),
            table.wf(),
            table@ == load_map(all.take(i as int), all_loaded.take(i as int)),
        decreases n - i,
    {
        let item = rest.remove(0);
        assert(item == all_loaded[i as int]);
        assert(rest@ =~= all_loaded.skip(i + 1));
        let ghost t_next = all.take(i + 1);
        let ghost l_next = all_loaded.take(i + 1);
        assert(t_next.drop_last() =~= all.take(i as int));
        assert(l_next.drop_last() =~= all_loaded.take(i as int));
        assert(t_next.last() == all[i as int]);
        assert(l_next.last() == item);
        match item {
            Some(v) => {
                flags.push(true);
                table.insert(sounds[i].uuid.as_str(), v);
            },
            None => {
                flags.push(false);
            },
        }
        assert(flags@ =~= found_flags(l_next));
        i = i + 1;
    }
    assert(all.take(n as int) =~= all);
    assert(all_loaded.take(n as int) =~= all_loaded);
    retain_available(sounds, &flags);
    table
}

/// Loading stores a clip under a sound id exactly when some sound with
/// that id had its file read: every kept sound's id has a clip, and an id
/// whose sounds all left the catalogue has none.
pub proof fn law_loaded_ids<T>(sounds: Seq<Sound>, loaded: Seq<Option<T>>, id: Seq<char>)
    requires
        sounds.len() == loaded.len(),
    ensures
        load_map(sounds, loaded).dom().contains(id) <==> exists|i: int|
            0 <= i < sounds.len() && loaded[i] is Some && #[trigger] sounds[i].uuid@ == id,
    decreases sounds.len(),
{
    if sounds.len() > 0 {
        let s0 = sounds.drop_last();
        let l0 = loaded.drop_last();
        law_loaded_ids(s0, l0, id);
        let last = sounds.len() - 1;
        if load_map(s0, l0).dom().contains(id) {
            let i = choose|i: int| 0 <= i < s0.len() && l0[i] is Some && #[trigger] s0[i].uuid@ == id;
            assert(sounds[i] == s0[i]);
        }
        if exists|i: int| 0 <= i < sounds.len() && loaded[i] is Some && #[trigger] sounds[i].uuid@ == id {
            let i = choose|i: int| 0 <= i < sounds.len() && loaded[i] is Some && #[trigger] sounds[i].uuid@ == id;
            if i < last {
                assert(s0[i] == sounds[i]);
            }
        }
    }
}

/// What a lookup gives back of a store: after a clip is stored under an id,
/// that id gives the clip, and every other id gives what it gave before.
pub proof fn law_clip_after_insert<T>(before: Map<Seq<char>, T>, id: Seq<char>, clip: T, other: Seq<char>)
    ensures
        before.insert(id, clip)[id] == clip,
        before.insert(id, clip).dom().contains(id),
        other != id ==> (before.insert(id, clip).dom().contains(other) == before.dom().contains(other)),
        other != id && before.dom().contains(other) ==> before.insert(id, clip)[other] == before[other],
{
}

} // verus!
