//! Energy sources: what every source tells about itself, the Linux
//! powercap (RAPL) zones the daemon measures, and how requested source ids
//! are checked and picked.

use vstd::prelude::*;

use crate::errors::WattchError;
use crate::numeric::{parse_u64, spec_parse_u64};
use crate::proto::Source;
use crate::text::{chars_of, push_str, string_of, trim, trim_chars};

verus! {

/// What every energy source tells about itself.
pub trait SourceMetadata {
    /// The id the source is listed and requested by.
    spec fn spec_source_id(&self) -> u32;

    /// The source's name.
    spec fn spec_source_name(&self) -> Seq<char>;

    /// What kind of source it is.
    spec fn spec_kind(&self) -> Seq<char>;

    /// The unit its readings come in.
    spec fn spec_unit(&self) -> Seq<char>;

    /// Whether it can be read.
    spec fn spec_available(&self) -> bool;

    fn source_id(&self) -> (r: u32)
        ensures
            r == self.spec_source_id(),
    ;

    fn source_name(&self) -> (r: &str)
        ensures
            r@ == self.spec_source_name(),
    ;

    fn kind(&self) -> (r: &str)
        ensures
            r@ == self.spec_kind(),
    ;

    fn unit(&self) -> (r: &str)
        ensures
            r@ == self.spec_unit(),
    ;

    fn available(&self) -> (r: bool)
        ensures
            r == self.spec_available(),
    ;

    /// The source as the protocol describes it.
    fn to_proto(&self) -> (r: Source)
        ensures
            r.source_id == self.spec_source_id(),
            r.name@ == self.spec_source_name(),
            r.kind@ == self.spec_kind(),
            r.unit@ == self.spec_unit(),
            r.available == self.spec_available(),
    {
        let name = self.source_name();
        let kind = self.kind();
        let unit = self.unit();
        Source {
            source_id: self.source_id(),
            name: name.to_string(),
            kind: kind.to_string(),
            unit: unit.to_string(),
            available: self.available(),
        }
    }
}

impl<T: SourceMetadata + ?Sized> SourceMetadata for Box<T> {
    open spec fn spec_source_id(&self) -> u32 {
        (**self).spec_source_id()
    }

    open spec fn spec_source_name(&self) -> Seq<char> {
        (**self).spec_source_name()
    }

    open spec fn spec_kind(&self) -> Seq<char> {
        (**self).spec_kind()
    }

    open spec fn spec_unit(&self) -> Seq<char> {
        (**self).spec_unit()
    }

    open spec fn spec_available(&self) -> bool {
        (**self).spec_available()
    }

    fn source_id(&self) -> (r: u32) {
        (**self).source_id()
    }

    fn source_name(&self) -> (r: &str) {
        (**self).source_name()
    }

    fn kind(&self) -> (r: &str) {
        (**self).kind()
    }

    fn unit(&self) -> (r: &str) {
        (**self).unit()
    }

    fn available(&self) -> (r: bool) {
        (**self).available()
    }
}

/// A RAPL zone under the powercap tree. Its energy counter range is kept
/// in microjoules, as the zone reports it.
#[derive(Debug, PartialEq)]
pub struct PowercapSource {
    pub source_id: u32,
    pub name: String,
    pub kind: String,
    pub unit: String,
    pub available: bool,
    pub path: String,
    pub max_energy_uj: u64,
}

impl Clone for PowercapSource {
    fn clone(&self) -> (r: Self)
        ensures
            r == *self,
    {
        PowercapSource {
            source_id: self.source_id,
            name: self.name.clone(),
            kind: self.kind.clone(),
            unit: self.unit.clone(),
            available: self.available,
            path: self.path.clone(),
            max_energy_uj: self.max_energy_uj,
        }
    }
}

/// The protocol's description of a powercap zone.
pub open spec fn powercap_to_proto(p: PowercapSource) -> Source {
    Source { source_id: p.source_id, name: p.name, kind: p.kind, unit: p.unit, available: p.available }
}

impl PowercapSource {
    /// The zone as the protocol describes it.
    pub fn to_proto(&self) -> (r: Source)
        ensures
            r == powercap_to_proto(*self),
    {
        Source {
            source_id: self.source_id,
            name: self.name.clone(),
            kind: self.kind.clone(),
            unit: self.unit.clone(),
            available: self.available,
        }
    }
}

impl SourceMetadata for PowercapSource {
    open spec fn spec_source_id(&self) -> u32 {
        self.source_id
    }

    open spec fn spec_source_name(&self) -> Seq<char> {
        self.name@
    }

    open spec fn spec_kind(&self) -> Seq<char> {
        self.kind@
    }

    open spec fn spec_unit(&self) -> Seq<char> {
        self.unit@
    }

    open spec fn spec_available(&self) -> bool {
        self.available
    }

    fn source_id(&self) -> (r: u32) {
        self.source_id
    }

    fn source_name(&self) -> (r: &str) {
        self.name.as_str()
    }

    fn kind(&self) -> (r: &str) {
        self.kind.as_str()
    }

    fn unit(&self) -> (r: &str) {
        self.unit.as_str()
    }

    fn available(&self) -> (r: bool) {
        self.available
    }
}

/// The id and availability of each source, in order.
pub type SourceKeys = Seq<(u32, bool)>;

/// The keys of powercap zones.
pub open spec fn powercap_keys(s: Seq<PowercapSource>) -> SourceKeys {
    s.map_values(|p: PowercapSource| (p.source_id, p.available))
}

/// The keys of protocol sources.
pub open spec fn source_keys(s: Seq<Source>) -> SourceKeys {
    s.map_values(|p: Source| (p.source_id, p.available))
}

/// The position of the first source with id `id`.
pub open spec fn find_id(keys: SourceKeys, id: u32) -> Option<nat>
    decreases keys.len(),
{
    if keys.len() == 0 {
        None
    } else if keys[0].0 == id {
        Some(0)
    } else {
        match find_id(keys.drop_first(), id) {
            Some(i) => Some(i + 1),
            None => None,
        }
    }
}

/// The position of the first available source with id `id`.
pub open spec fn find_available_id(keys: SourceKeys, id: u32) -> Option<nat>
    decreases keys.len(),
{
    if keys.len() == 0 {
        None
    } else if keys[0].0 == id && keys[0].1 {
        Some(0)
    } else {
        match find_available_id(keys.drop_first(), id) {
            Some(i) => Some(i + 1),
            None => None,
        }
    }
}

/// Why the source `id` cannot be streamed, judged by the first source
/// with that id, if it cannot.
pub open spec fn id_problem(keys: SourceKeys, id: u32) -> Option<WattchError> {
    match find_id(keys, id) {
        None => Some(WattchError::SourceNotFound(id)),
        Some(i) => if keys[i as int].1 {
            None
        } else {
            Some(WattchError::SourceUnavailable(id))
        },
    }
}

/// The problem of the first requested id that has one.
pub open spec fn first_problem(keys: SourceKeys, ids: Seq<u32>) -> Option<WattchError>
    decreases ids.len(),
{
    if ids.len() == 0 {
        None
    } else {
        match id_problem(keys, ids[0]) {
            Some(e) => Some(e),
            None => first_problem(keys, ids.drop_first()),
        }
    }
}

/// A refused request names a missing or an unavailable source.
pub proof fn lemma_first_problem_kind(keys: SourceKeys, ids: Seq<u32>)
    ensures
        first_problem(keys, ids) matches Some(e) ==> e is SourceNotFound || e is SourceUnavailable,
    decreases ids.len(),
{
    if ids.len() > 0 {
        lemma_first_problem_kind(keys, ids.drop_first());
    }
}

pub proof fn lemma_find_id(keys: SourceKeys, id: u32)
    ensures
        find_id(keys, id) matches Some(i) ==> i < keys.len() && keys[i as int].0 == id && forall|
            j: int,
        |
            0 <= j < i ==> keys[j].0 != id,
        find_id(keys, id) is None ==> forall|j: int| 0 <= j < keys.len() ==> keys[j].0 != id,
    decreases keys.len(),
{
    if keys.len() > 0 {
        lemma_find_id(keys.drop_first(), id);
        assert forall|j: int| 1 <= j < keys.len() implies keys[j] == keys.drop_first()[j - 1] by {}
    }
}

pub proof fn lemma_find_available_id(keys: SourceKeys, id: u32)
    ensures
        find_available_id(keys, id) matches Some(i) ==> i < keys.len() && keys[i as int].0 == id
            && keys[i as int].1 && forall|j: int| 0 <= j < i ==> !(keys[j].0 == id && keys[j].1),
        find_available_id(keys, id) is None ==> forall|j: int|
            0 <= j < keys.len() ==> !(keys[j].0 == id && keys[j].1),
    decreases keys.len(),
{
    if keys.len() > 0 {
        lemma_find_available_id(keys.drop_first(), id);
        assert forall|j: int| 1 <= j < keys.len() implies keys[j] == keys.drop_first()[j - 1] by {}
    }
}

/// An optional position as a natural number.
pub open spec fn opt_nat(o: Option<usize>) -> Option<nat> {
    match o {
        Some(i) => Some(i as nat),
        None => None,
    }
}

/// The first zone with id `id` (and, if `need_available`, available).
fn find_powercap(sources: &[PowercapSource], id: u32, need_available: bool) -> (r: Option<usize>)
    ensures
        !need_available ==> opt_nat(r) == find_id(powercap_keys(sources@), id),
        need_available ==> opt_nat(r) == find_available_id(
            powercap_keys(sources@),
            id,
        ),
{
    let ghost keys = powercap_keys(sources@);
    let mut i: usize = 0;
    while i < sources.len()
        invariant
            i <= sources@.len(),
            keys == powercap_keys(sources@),
            forall|j: int|
                0 <= j < i ==> !(keys[j].0 == id && (!need_available || keys[j].1)),
        decreases sources@.len() - i,
    {
        if sources[i].source_id == id && (!need_available || sources[i].available) {
            proof {
                lemma_find_id(keys, id);
                lemma_find_available_id(keys, id);
                assert(keys[i as int] == (sources@[i as int].source_id, sources@[i as int].available));
                if !need_available {
                    match find_id(keys, id) {
                        Some(k) => {
                            assert(k <= i);
                            if k < i {
                                assert(keys[k as int].0 == id);
                            }
                        },
                        None => {
                            assert(keys[i as int].0 == id);
                        },
                    }
                } else {
                    match find_available_id(keys, id) {
                        Some(k) => {
                            assert(k <= i);
                            if k < i {
                                assert(keys[k as int].0 == id && keys[k as int].1);
                            }
                        },
                        None => {
                            assert(keys[i as int].0 == id && keys[i as int].1);
                        },
                    }
                }
            }
            return Some(i);
        }
        proof {
            assert(keys[i as int] == (sources@[i as int].source_id, sources@[i as int].available));
        }
        i += 1;
    }
    proof {
        lemma_find_id(keys, id);
        lemma_find_available_id(keys, id);
        if !need_available {
            if let Some(k) = find_id(keys, id) {
                assert(keys[k as int].0 == id);
            }
        } else {
            if let Some(k) = find_available_id(keys, id) {
                assert(keys[k as int].0 == id && keys[k as int].1);
            }
        }
    }
    None
}

/// Accepts a request for `source_ids` when each names a source whose first
/// occurrence is available; else the problem of the first that does not.
pub fn validate_source_ids(source_ids: &[u32], available_sources: &[PowercapSource]) -> (r: Result<
    (),
    WattchError,
>)
    ensures
        match first_problem(powercap_keys(available_sources@), source_ids@) {
            None => r is Ok,
            Some(e) => r == Err::<(), WattchError>(e),
        },
{
    let ghost keys = powercap_keys(available_sources@);
    assert(source_ids@.skip(0) =~= source_ids@);
    let mut i: usize = 0;
    while i < source_ids.len()
        invariant
            i <= source_ids@.len(),
            keys == powercap_keys(available_sources@),
            first_problem(keys, source_ids@) == first_problem(keys, source_ids@.skip(i as int)),
        decreases source_ids@.len() - i,
    {
        let id = source_ids[i];
        let ghost rest = source_ids@.skip(i as int);
        assert(rest[0] == id);
        assert(rest.drop_first() =~= source_ids@.skip(i + 1));
        match find_powercap(available_sources, id, false) {
            Some(k) => {
                proof {
                    lemma_find_id(keys, id);
                    assert(keys[k as int] == (
                        available_sources@[k as int].source_id,
                        available_sources@[k as int].available,
                    ));
                }
                if !available_sources[k].available {
                    return Err(WattchError::SourceUnavailable(id));
                }
            },
            None => {
                return Err(WattchError::SourceNotFound(id));
            },
        }
        i += 1;
    }
    assert(source_ids@.skip(i as int) =~= Seq::<u32>::empty());
    Ok(())
}

/// The zones a stream samples: every available zone when no ids are
/// requested, else for each requested id the first available zone with
/// it (ids without one are passed over).
pub open spec fn spec_select_powercap(source_ids: Seq<u32>, sources: Seq<PowercapSource>) -> Seq<
    PowercapSource,
>
    decreases source_ids.len(),
{
    if source_ids.len() == 0 {
        Seq::empty()
    } else {
        let rest = spec_select_powercap(source_ids.drop_last(), sources);
        match find_available_id(powercap_keys(sources), source_ids.last()) {
            Some(k) => rest.push(sources[k as int]),
            None => rest,
        }
    }
}

/// Picks the zones a stream samples.
pub fn select_sources(source_ids: &[u32], sources: &[PowercapSource]) -> (r: Vec<PowercapSource>)
    ensures
        source_ids@.len() == 0 ==> r@ == sources@.filter(|p: PowercapSource| p.available),
        source_ids@.len() > 0 ==> r@ == spec_select_powercap(source_ids@, sources@),
{
    let mut selected: Vec<PowercapSource> = Vec::new();
    if source_ids.len() == 0 {
        let mut i: usize = 0;
        while i < sources.len()
            invariant
                i <= sources@.len(),
                selected@ == sources@.take(i as int).filter(|p: PowercapSource| p.available),
            decreases sources@.len() - i,
        {
            assert(sources@.take(i + 1).drop_last() =~= sources@.take(i as int));
            proof {
                reveal_with_fuel(Seq::filter, 1);
            }
            if sources[i].available {
                selected.push(sources[i].clone());
            }
            i += 1;
        }
        assert(sources@.take(i as int) =~= sources@);
        return selected;
    }
    let mut i: usize = 0;
    while i < source_ids.len()
        invariant
            i <= source_ids@.len(),
            selected@ == spec_select_powercap(source_ids@.take(i as int), sources@),
        decreases source_ids@.len() - i,
    {
        let id = source_ids[i];
        assert(source_ids@.take(i + 1).drop_last() =~= source_ids@.take(i as int));
        assert(source_ids@.take(i + 1).last() == id);
        proof {
            lemma_find_available_id(powercap_keys(sources@), id);
        }
        match find_powercap(sources, id, true) {
            Some(k) => {
                selected.push(sources[k].clone());
            },
            None => {},
        }
        i += 1;
    }
    assert(source_ids@.take(i as int) =~= source_ids@);
    selected
}

/// Whether `sources[k]` is the first available zone with id `id`.
pub open spec fn is_first_available(sources: Seq<PowercapSource>, id: u32, k: int) -> bool {
    &&& 0 <= k < sources.len()
    &&& sources[k].source_id == id
    &&& sources[k].available
    &&& forall|j: int| 0 <= j < k ==> !(#[trigger] sources[j].source_id == id && sources[j].available)
}

/// Whether some zone in `sources` with id `id` is available.
pub open spec fn has_available(sources: Seq<PowercapSource>, id: u32) -> bool {
    exists|k: int| 0 <= k < sources.len() && #[trigger] sources[k].source_id == id && sources[k].available
}

/// Whether `zone` is the first available zone in `sources` with id `id`.
pub open spec fn is_first_available_zone(sources: Seq<PowercapSource>, id: u32, zone: PowercapSource) -> bool {
    exists|k: int| #[trigger] is_first_available(sources, id, k) && zone == sources[k]
}

/// When every requested id names an available zone, the selection holds
/// exactly one zone per requested id, in the order requested: the `i`-th
/// is the first available zone whose id is the `i`-th requested id.
pub proof fn lemma_selection_one_zone_per_id(ids: Seq<u32>, sources: Seq<PowercapSource>)
    requires
        forall|i: int| 0 <= i < ids.len() ==> has_available(sources, #[trigger] ids[i]),
    ensures
        spec_select_powercap(ids, sources).len() == ids.len(),
        forall|i: int|
            0 <= i < ids.len() ==> is_first_available_zone(
                sources,
                ids[i],
                #[trigger] spec_select_powercap(ids, sources)[i],
            ),
    decreases ids.len(),
{
    if ids.len() > 0 {
        let rest_ids = ids.drop_last();
        assert forall|i: int| 0 <= i < rest_ids.len() implies has_available(
            sources,
            #[trigger] rest_ids[i],
        ) by {
            assert(rest_ids[i] == ids[i]);
        }
        lemma_selection_one_zone_per_id(rest_ids, sources);
        let keys = powercap_keys(sources);
        let id = ids.last();
        lemma_find_available_id(keys, id);
        assert(has_available(sources, ids[ids.len() - 1]));
        let w = choose|k: int|
            0 <= k < sources.len() && #[trigger] sources[k].source_id == id && sources[k].available;
        assert(keys[w].0 == id && keys[w].1);
        let k = find_available_id(keys, id)->0 as int;
        let sel = spec_select_powercap(ids, sources);
        let rest = spec_select_powercap(rest_ids, sources);
        assert(sel == rest.push(sources[k]));
        assert forall|j: int| 0 <= j < k implies !(#[trigger] sources[j].source_id == id
            && sources[j].available) by {
            assert(keys[j] == (sources[j].source_id, sources[j].available));
        }
        assert(is_first_available(sources, id, k));
        assert forall|i: int| 0 <= i < ids.len() implies is_first_available_zone(
            sources,
            ids[i],
            #[trigger] sel[i],
        ) by {
            if i == ids.len() - 1 {
                assert(sel[i] == sources[k]);
                assert(is_first_available(sources, ids[i], k));
            } else {
                assert(ids[i] == rest_ids[i]);
                assert(sel[i] == rest[i]);
                assert(is_first_available_zone(sources, rest_ids[i], rest[i]));
            }
        }
    }
}

/// Requested ids that name no available zone are passed over: the
/// selection is the selection of just the ids that do.
pub proof fn lemma_selection_skips_unavailable(ids: Seq<u32>, sources: Seq<PowercapSource>)
    ensures
        spec_select_powercap(ids, sources) == spec_select_powercap(
            ids.filter(|id: u32| has_available(sources, id)),
            sources,
        ),
    decreases ids.len(),
{
    let pred = |id: u32| has_available(sources, id);
    if ids.len() == 0 {
        assert(ids.filter(pred) =~= Seq::<u32>::empty());
    } else {
        let init = ids.drop_last();
        let id = ids.last();
        lemma_selection_skips_unavailable(init, sources);
        reveal_with_fuel(Seq::filter, 1);
        assert(ids.filter(pred) == if pred(id) {
            init.filter(pred).push(id)
        } else {
            init.filter(pred)
        });
        let keys = powercap_keys(sources);
        lemma_find_available_id(keys, id);
        if pred(id) {
            let w = choose|k: int|
                0 <= k < sources.len() && #[trigger] sources[k].source_id == id && sources[k].available;
            assert(keys[w].0 == id && keys[w].1);
            let f = init.filter(pred).push(id);
            assert(f.drop_last() =~= init.filter(pred));
            assert(f.last() == id);
        } else {
            if let Some(i) = find_available_id(keys, id) {
                assert(keys[i as int] == (sources[i as int].source_id, sources[i as int].available));
                assert(has_available(sources, id));
            }
        }
    }
}

/// The message for a sysfs file at `path` that holds no `u64`, if it holds none.
pub open spec fn u64_file_error(path: Seq<char>, contents: Seq<char>) -> Option<Seq<char>> {
    match spec_parse_u64(trim(contents)) {
        Ok(_) => None,
        Err(k) => Some("failed to parse "@ + path + " as u64: "@ + k.spec_message()),
    }
}

/// Reads the `u64` a sysfs file holds (surrounding whitespace allowed);
/// `path` is the file's displayed path, for the message.
pub fn parse_u64_file(path: &str, contents: &str) -> (r: Result<u64, WattchError>)
    ensures
        spec_parse_u64(trim(contents@)) matches Ok(n) ==> r == Ok::<u64, WattchError>(n as u64),
        u64_file_error(path@, contents@) matches Some(m) ==> (r matches Err(
            WattchError::Internal(x),
        ) && x@ == m),
{
    let chars = chars_of(contents);
    let value = trim_chars(chars.as_slice());
    match parse_u64(value) {
        Ok(n) => Ok(n),
        Err(k) => {
            let mut message = "failed to parse ".to_string();
            push_str(&mut message, path);
            push_str(&mut message, " as u64: ");
            let reason = k.to_string();
            push_str(&mut message, reason.as_str());
            Err(WattchError::Internal(message))
        },
    }
}

/// The zone found in directory `path` as the `discovered`-th complete
/// one (counting from 0), named after the trimmed `name` file.
pub open spec fn discovered_zone(discovered: nat, path: Seq<char>, name_file: Seq<char>, max_energy_uj: u64) -> (
    u32,
    Seq<char>,
    Seq<char>,
    Seq<char>,
    bool,
    Seq<char>,
    u64,
) {
    (
        (discovered + 1) as u32,
        "rapl:"@ + trim(name_file),
        "rapl"@,
        "joule"@,
        true,
        path,
        max_energy_uj,
    )
}

/// The fields of a zone, in declaration order.
pub open spec fn powercap_fields(p: PowercapSource) -> (
    u32,
    Seq<char>,
    Seq<char>,
    Seq<char>,
    bool,
    Seq<char>,
    u64,
) {
    (p.source_id, p.name@, p.kind@, p.unit@, p.available, p.path@, p.max_energy_uj)
}

/// Adds the zone of a complete source directory to those discovered so
/// far: it is numbered after them (from 1, in discovery order, wrapping
/// as a `u32`) and named `rapl:` and its trimmed `name` file.
pub fn push_powercap_source(
    sources: &mut Vec<PowercapSource>,
    path: &str,
    name_file: &str,
    max_energy_uj: u64,
)
    requires
        old(sources)@.len() < usize::MAX,
    ensures
        final(sources)@.len() == old(sources)@.len() + 1,
        final(sources)@.take(old(sources)@.len() as int) == old(sources)@,
        powercap_fields(final(sources)@.last()) == discovered_zone(
            old(sources)@.len(),
            path@,
            name_file@,
            max_energy_uj,
        ),
{
    let chars = chars_of(name_file);
    let zone = trim_chars(chars.as_slice());
    let mut name = "rapl:".to_string();
    let zone_text = string_of(zone);
    push_str(&mut name, zone_text.as_str());
    let source = PowercapSource {
        source_id: (sources.len() + 1) as u32,
        name,
        kind: "rapl".to_string(),
        unit: "joule".to_string(),
        available: true,
        path: path.to_string(),
        max_energy_uj,
    };
    let ghost before = sources@;
    sources.push(source);
    assert(sources@.take(before.len() as int) =~= before);
}

} // verus!
