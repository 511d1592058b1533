//! The streams that the portal grants, as its answers describe them.
use crate::display::{
    find_named, find_sized, first_where, lemma_first_where, named, sized, Displays,
    WaylandDisplayInfo,
};
use crate::text::same_text;
use vstd::prelude::*;

verus! {

/// A value of a D-Bus message, by what can be read from it: an unsigned or a signed number,
/// a text, and the values inside it.
#[derive(Debug)]
pub struct Arg {
    pub uint: Option<u64>,
    pub int: Option<i64>,
    pub text: Option<String>,
    pub items: Option<Vec<Arg>>,
}

/// The named values of a portal response. Of two values with one name the later one counts.
#[derive(Debug)]
pub struct PortalResults {
    pub entries: Vec<(String, Arg)>,
}

/// One PipeWire stream that the portal granted.
#[derive(Debug)]
pub struct PwStreamInfo {
    pub path: u64,
    pub source_type: u64,
    pub position: (i32, i32),
    pub size: (usize, usize),
    pub mapping_id: Option<String>,
}

/// A stream, its text as characters.
pub ghost struct StreamView {
    pub path: u64,
    pub source_type: u64,
    pub position: (i32, i32),
    pub size: (usize, usize),
    pub mapping_id: Option<Seq<char>>,
}

/// An optional text as characters.
pub open spec fn opt_text(t: Option<String>) -> Option<Seq<char>> {
    match t {
        Some(s) => Some(s@),
        None => None,
    }
}

impl View for PwStreamInfo {
    type V = StreamView;

    open spec fn view(&self) -> StreamView {
        StreamView {
            path: self.path,
            source_type: self.source_type,
            position: self.position,
            size: self.size,
            mapping_id: opt_text(self.mapping_id),
        }
    }
}

/// Streams as mathematical values.
pub open spec fn stream_views(s: Seq<PwStreamInfo>) -> Seq<StreamView> {
    s.map_values(|i: PwStreamInfo| i@)
}

/// Copies an optional text.
pub fn copy_text(t: &Option<String>) -> (r: Option<String>)
    ensures
        r == *t,
{
    match t {
        Some(s) => Some(s.clone()),
        None => None,
    }
}

impl Clone for PwStreamInfo {
    fn clone(&self) -> (r: Self)
        ensures
            r == *self,
    {
        PwStreamInfo {
            path: self.path,
            source_type: self.source_type,
            position: self.position,
            size: self.size,
            mapping_id: copy_text(&self.mapping_id),
        }
    }
}

impl PwStreamInfo {
    pub fn get_size(&self) -> (r: (usize, usize))
        ensures
            r == self.size,
    {
        self.size
    }

    pub fn get_position(&self) -> (r: (i32, i32))
        ensures
            r == self.position,
    {
        self.position
    }
}

/// The last of the first `n` named values that has the name.
pub open spec fn last_named(entries: Seq<(String, Arg)>, n: nat, name: Seq<char>) -> Option<Arg>
    decreases n,
{
    if n == 0 {
        None
    } else if entries[n - 1].0@ == name {
        Some(entries[n - 1].1)
    } else {
        last_named(entries, (n - 1) as nat, name)
    }
}

impl PortalResults {
    /// The value of a name.
    pub open spec fn value(self, name: Seq<char>) -> Option<Arg> {
        last_named(self.entries@, self.entries@.len(), name)
    }

    /// Looks a value up by its name.
    pub fn get(&self, name: &str) -> (r: Option<&Arg>)
        ensures
            match r {
                Some(a) => self.value(name@) == Some(*a),
                None => self.value(name@) is None,
            },
    {
        let mut n: usize = self.entries.len();
        while n > 0
            invariant
                n <= self.entries.len(),
                last_named(self.entries@, n as nat, name@) == self.value(name@),
            decreases n,
        {
            n = n - 1;
            if same_text(self.entries[n].0.as_str(), name) {
                return Some(&self.entries[n].1);
            }
        }
        None
    }
}

/// The keys of a dictionary whose keys and values alternate: the texts at the even places.
/// A key that is no text is left out.
pub open spec fn dict_keys(entries: Seq<Arg>) -> Seq<Seq<char>>
    decreases entries.len(),
{
    if entries.len() == 0 {
        seq![]
    } else {
        let before = dict_keys(entries.drop_last());
        match entries.last().text {
            Some(key) if entries.len() % 2 == 1 => before.push(key@),
            _ => before,
        }
    }
}

/// The values of a dictionary: what stands at the odd places.
pub open spec fn dict_values(entries: Seq<Arg>) -> Seq<Arg>
    decreases entries.len(),
{
    if entries.len() == 0 {
        seq![]
    } else {
        let before = dict_values(entries.drop_last());
        if entries.len() % 2 == 0 {
            before.push(entries.last())
        } else {
            before
        }
    }
}

/// The value beside the last of the first `n` keys that has the name.
pub open spec fn last_keyed(
    keys: Seq<Seq<char>>,
    values: Seq<Arg>,
    n: nat,
    name: Seq<char>,
) -> Option<Arg>
    decreases n,
{
    if n == 0 {
        None
    } else if keys[n - 1] == name {
        Some(values[n - 1])
    } else {
        last_keyed(keys, values, (n - 1) as nat, name)
    }
}

/// The lesser of two lengths.
pub open spec fn lesser(a: nat, b: nat) -> nat {
    if a <= b {
        a
    } else {
        b
    }
}

/// An attribute of a stream: the keys and the values are paired in order, as far as both go.
pub open spec fn attribute(entries: Seq<Arg>, name: Seq<char>) -> Option<Arg> {
    let (keys, values) = (dict_keys(entries), dict_values(entries));
    last_keyed(keys, values, lesser(keys.len(), values.len()), name)
}

/// The first value that has values inside it: those values.
pub open spec fn first_list(items: Seq<Arg>) -> Option<Seq<Arg>>
    decreases items.len(),
{
    if items.len() == 0 {
        None
    } else {
        match items[0].items {
            Some(list) => Some(list@),
            None => first_list(items.drop_first()),
        }
    }
}

/// A signed number, 0 where the value is none.
pub open spec fn int_or_zero(a: Arg) -> i64 {
    match a.int {
        Some(n) => n,
        None => 0,
    }
}

/// Two numbers, from the first list among some values, if that list has length 2.
pub open spec fn number_pair(items: Seq<Arg>) -> Option<(i64, i64)> {
    match first_list(items) {
        Some(list) if list.len() == 2 => Some((int_or_zero(list[0]), int_or_zero(list[1]))),
        _ => None,
    }
}

/// A stream by its node and its attributes, and whether it tells its position; none where a
/// required attribute is missing or an attribute has the wrong form.
pub open spec fn stream_of_attributes(path: u64, entries: Seq<Arg>) -> Option<(StreamView, bool)> {
    let kind = attribute(entries, "source_type"@);
    let size = attribute(entries, "size"@);
    let position = attribute(entries, "position"@);
    if kind is Some && kind->0.uint is None {
        None
    } else if size is None || size->0.items is None {
        None
    } else if position is Some && position->0.items is None {
        None
    } else {
        let size_pair = number_pair(size->0.items->0@);
        let position_pair = if position is Some {
            number_pair(position->0.items->0@)
        } else {
            None
        };
        Some(
            (
                StreamView {
                    path,
                    source_type: if kind is Some {
                        kind->0.uint->0
                    } else {
                        0
                    },
                    position: match position_pair {
                        Some(p) => (p.0 as i32, p.1 as i32),
                        None => (0, 0),
                    },
                    size: match size_pair {
                        Some(p) => (p.0 as usize, p.1 as usize),
                        None => (0, 0),
                    },
                    mapping_id: match attribute(entries, "mapping_id"@) {
                        Some(a) => opt_text(a.text),
                        None => None,
                    },
                },
                position_pair is Some,
            ),
        )
    }
}

/// A stream as the portal describes it: the node, then the dictionary of its attributes.
pub open spec fn stream_of(a: Arg) -> Option<(StreamView, bool)> {
    match a.items {
        Some(parts) if parts@.len() >= 2 && parts@[0].uint is Some && parts@[1].items is Some =>
            stream_of_attributes(parts@[0].uint->0, parts@[1].items->0@),
        _ => None,
    }
}

/// The streams among the first `n` of some values, in order.
pub open spec fn streams_among(list: Seq<Arg>, n: nat) -> Seq<StreamView>
    decreases n,
{
    if n == 0 {
        seq![]
    } else {
        let before = streams_among(list, (n - 1) as nat);
        match stream_of(list[n - 1]) {
            Some(s) => before.push(s.0),
            None => before,
        }
    }
}

/// One of the values is a stream that tells its position.
pub open spec fn tells_position(list: Seq<Arg>) -> bool {
    exists|i: int| 0 <= i < list.len() && is_positioned(#[trigger] list[i])
}

/// The value is a stream that tells its position.
pub open spec fn is_positioned(a: Arg) -> bool {
    stream_of(a) matches Some(s) && s.1
}

/// The list of streams in a response: what is inside the first value of `streams`.
pub open spec fn stream_list(results: PortalResults) -> Seq<Arg> {
    match results.value("streams"@) {
        Some(a) => match a.items {
            Some(outer) if outer@.len() > 0 => match outer@[0].items {
                Some(list) => list@,
                None => seq![],
            },
            _ => seq![],
        },
        None => seq![],
    }
}

/// An attribute by its name. `entries` alternates keys and values.
fn get_attribute<'a>(entries: &'a Vec<Arg>, name: &str) -> (r: Option<&'a Arg>)
    ensures
        match r {
            Some(a) => attribute(entries@, name@) == Some(*a),
            None => attribute(entries@, name@) is None,
        },
{
    let mut keys: Vec<&String> = Vec::new();
    let mut values: Vec<&Arg> = Vec::new();
    let mut i: usize = 0;
    while i < entries.len()
        invariant
            i <= entries.len(),
            keys@.map_values(|k: &String| k@) == dict_keys(entries@.take(i as int)),
            values@.map_values(|v: &Arg| *v) == dict_values(entries@.take(i as int)),
        decreases entries.len() - i,
    {
        let ghost seen = entries@.take(i as int);
        let ghost (old_keys, old_values) = (keys@, values@);
        assert(entries@.take(i + 1).drop_last() =~= seen);
        if i % 2 == 0 {
            match &entries[i].text {
                Some(key) => {
                    keys.push(key);
                    assert(keys@.map_values(|k: &String| k@) =~= old_keys.map_values(
                        |k: &String| k@,
                    ).push(key@));
                },
                None => {},
            }
        } else {
            values.push(&entries[i]);
            assert(values@.map_values(|v: &Arg| *v) =~= old_values.map_values(|v: &Arg| *v).push(
                entries@[i as int],
            ));
        }
        i = i + 1;
    }
    assert(entries@.take(entries@.len() as int) =~= entries@);
    let ghost all_keys = dict_keys(entries@);
    let ghost all_values = dict_values(entries@);
    let mut n: usize = if keys.len() <= values.len() {
        keys.len()
    } else {
        values.len()
    };
    while n > 0
        invariant
            n <= keys.len(),
            n <= values.len(),
            keys@.map_values(|k: &String| k@) == all_keys,
            values@.map_values(|v: &Arg| *v) == all_values,
            last_keyed(all_keys, all_values, n as nat, name@) == attribute(entries@, name@),
        decreases n,
    {
        n = n - 1;
        assert(all_keys[n as int] == keys@[n as int]@);
        assert(all_values[n as int] == *values@[n as int]);
        if same_text(keys[n].as_str(), name) {
            return Some(values[n]);
        }
    }
    None
}

/// Reads two numbers from the first list among some values.
fn get_pair(items: &Vec<Arg>) -> (r: Option<(i64, i64)>)
    ensures
        r == number_pair(items@),
{
    let mut i: usize = 0;
    assert(items@.skip(0) =~= items@);
    while i < items.len()
        invariant
            i <= items.len(),
            first_list(items@.skip(i as int)) == first_list(items@),
        decreases items.len() - i,
    {
        assert(items@.skip(i as int).drop_first() =~= items@.skip(i + 1));
        match &items[i].items {
            Some(list) => {
                if list.len() == 2 {
                    let a: i64 = match list[0].int {
                        Some(n) => n,
                        None => 0,
                    };
                    let b: i64 = match list[1].int {
                        Some(n) => n,
                        None => 0,
                    };
                    return Some((a, b));
                }
                return None;
            },
            None => {},
        }
        i = i + 1;
    }
    None
}

/// Reads a stream from its attributes.
fn read_attributes(path: u64, entries: &Vec<Arg>) -> (r: Option<(PwStreamInfo, bool)>)
    ensures
        match r {
            Some(s) => stream_of_attributes(path, entries@) == Some((s.0@, s.1)),
            None => stream_of_attributes(path, entries@) is None,
        },
{
    let source_type: u64 = match get_attribute(entries, "source_type") {
        Some(kind) => match kind.uint {
            Some(n) => n,
            None => {
                return None;
            },
        },
        None => 0,
    };
    let mapping_id: Option<String> = match get_attribute(entries, "mapping_id") {
        Some(id) => copy_text(&id.text),
        None => None,
    };
    let mut info: PwStreamInfo = PwStreamInfo {
        path,
        source_type,
        position: (0, 0),
        size: (0, 0),
        mapping_id,
    };
    let size: &Vec<Arg> = match get_attribute(entries, "size") {
        Some(size) => match &size.items {
            Some(items) => items,
            None => {
                return None;
            },
        },
        None => {
            return None;
        },
    };
    match get_pair(size) {
        Some((w, h)) => {
            info.size = (w as usize, h as usize);
        },
        None => {},
    }
    let mut positioned: bool = false;
    match get_attribute(entries, "position") {
        Some(position) => match &position.items {
            Some(items) => match get_pair(items) {
                Some((x, y)) => {
                    info.position = (x as i32, y as i32);
                    positioned = true;
                },
                None => {},
            },
            None => {
                return None;
            },
        },
        None => {},
    }
    Some((info, positioned))
}

/// Reads a stream.
fn read_stream(a: &Arg) -> (r: Option<(PwStreamInfo, bool)>)
    ensures
        match r {
            Some(s) => stream_of(*a) == Some((s.0@, s.1)),
            None => stream_of(*a) is None,
        },
{
    match &a.items {
        Some(parts) => {
            if parts.len() < 2 {
                return None;
            }
            match parts[0].uint {
                Some(path) => match &parts[1].items {
                    Some(entries) => read_attributes(path, entries),
                    None => None,
                },
                None => None,
            }
        },
        None => None,
    }
}

/// Reads the streams among some values.
fn read_streams(list: &Vec<Arg>, has_position: &mut bool) -> (r: Vec<PwStreamInfo>)
    ensures
        stream_views(r@) == streams_among(list@, list@.len()),
        *final(has_position) == (*old(has_position) || tells_position(list@)),
{
    let mut out: Vec<PwStreamInfo> = Vec::new();
    let mut i: usize = 0;
    assert(stream_views(out@) =~= seq![]);
    while i < list.len()
        invariant
            i <= list.len(),
            stream_views(out@) == streams_among(list@, i as nat),
            *has_position == (*old(has_position) || exists|k: int|
                0 <= k < i && is_positioned(#[trigger] list@[k])),
        decreases list.len() - i,
    {
        let ghost before = out@;
        match read_stream(&list[i]) {
            Some((info, positioned)) => {
                if positioned {
                    *has_position = true;
                    assert(is_positioned(list@[i as int]));
                }
                out.push(info);
                assert(stream_views(out@) =~= stream_views(before).push(info@));
            },
            None => {},
        }
        i = i + 1;
    }
    out
}

/// The streams that a response to `Start` grants. `has_position` is set when one of them
/// tells its position.
pub fn streams_from_response(results: &PortalResults, has_position: &mut bool) -> (r: Vec<
    PwStreamInfo,
>)
    ensures
        stream_views(r@) == streams_among(stream_list(*results), stream_list(*results).len()),
        *final(has_position) == (*old(has_position) || tells_position(stream_list(*results))),
{
    let none: Vec<Arg> = Vec::new();
    match results.get("streams") {
        Some(a) => match &a.items {
            Some(outer) => {
                if outer.len() > 0 {
                    match &outer[0].items {
                        Some(list) => {
                            return read_streams(list, has_position);
                        },
                        None => {},
                    }
                }
            },
            None => {},
        },
        None => {},
    }
    read_streams(&none, has_position)
}

/// The display that a stream shows: the one that its mapping names, else the first with as
/// many pixels.
pub open spec fn shown_display(stream: StreamView, ds: Seq<WaylandDisplayInfo>) -> Option<int> {
    match stream.mapping_id {
        Some(id) if first_where(ds, named(id)) is Some => first_where(ds, named(id)),
        _ => first_where(ds, sized(stream.size)),
    }
}

/// The name of the monitor that freshly granted streams belong to, by the first of them.
pub open spec fn shown_monitor(
    streams: Seq<StreamView>,
    ds: Seq<WaylandDisplayInfo>,
) -> Option<Seq<char>> {
    if streams.len() == 0 {
        None
    } else {
        match shown_display(streams[0], ds) {
            Some(i) => Some(ds[i].name@),
            None => None,
        }
    }
}

/// Identifies the monitor that freshly granted streams belong to.
///
/// Streams of a single monitor often report the position (0, 0), so the name in the mapping
/// comes first. The resolution serves portals that give no mapping.
pub fn monitor_name_for_streams(streams: &Vec<PwStreamInfo>, displays: &Displays) -> (r: Option<
    String,
>)
    ensures
        opt_text(r) == shown_monitor(stream_views(streams@), displays.displays@),
{
    let ds: &Vec<WaylandDisplayInfo> = &displays.displays;
    if streams.len() == 0 {
        return None;
    }
    assert(stream_views(streams@)[0] == streams@[0]@);
    proof {
        lemma_first_where(ds@, sized(streams@[0].size));
    }
    match &streams[0].mapping_id {
        Some(id) => {
            proof {
                lemma_first_where(ds@, named(id@));
            }
            match find_named(ds, id) {
                Some(i) => {
                    return Some(ds[i].name.clone());
                },
                None => {},
            }
        },
        None => {},
    }
    match find_sized(ds, streams[0].size) {
        Some(i) => Some(ds[i].name.clone()),
        None => None,
    }
}

/// A stream at the place of the monitor that its mapping names, if there is one.
pub open spec fn stamped(s: StreamView, ds: Seq<WaylandDisplayInfo>) -> StreamView {
    match s.mapping_id {
        Some(id) => match first_where(ds, named(id)) {
            Some(i) => StreamView { position: (ds[i].x, ds[i].y), ..s },
            None => s,
        },
        None => s,
    }
}

/// Streams after their positions were taken from the layout, which is done on Hyprland only.
pub open spec fn stamped_streams(
    streams: Seq<StreamView>,
    ds: Seq<WaylandDisplayInfo>,
    hyprland: bool,
) -> Seq<StreamView> {
    if hyprland {
        streams.map_values(|s: StreamView| stamped(s, ds))
    } else {
        streams
    }
}

/// Takes the positions of mapped streams from the compositor's layout, on Hyprland only.
pub fn stamp_hyprland_stream_positions(
    streams: &mut Vec<PwStreamInfo>,
    displays: &Displays,
    hyprland: bool,
)
    ensures
        stream_views(final(streams)@) == stamped_streams(
            stream_views(old(streams)@),
            displays.displays@,
            hyprland,
        ),
{
    if !hyprland {
        return;
    }
    let ds: &Vec<WaylandDisplayInfo> = &displays.displays;
    let ghost before = streams@;
    let mut i: usize = 0;
    while i < streams.len()
        invariant
            i <= streams.len(),
            streams.len() == before.len(),
            ds@ == displays.displays@,
            forall|k: int| 0 <= k < i ==> (#[trigger] streams@[k])@ == stamped(before[k]@, ds@),
            forall|k: int| i <= k < before.len() ==> #[trigger] streams@[k] == before[k],
        decreases streams.len() - i,
    {
        let target: Option<usize> = match &streams[i].mapping_id {
            Some(id) => {
                proof {
                    lemma_first_where(ds@, named(id@));
                }
                find_named(ds, id)
            },
            None => None,
        };
        match target {
            Some(k) => {
                streams[i].position = (ds[k].x, ds[k].y);
            },
            None => {},
        }
        i = i + 1;
    }
    assert(stream_views(streams@) =~= stamped_streams(stream_views(before), ds@, true));
}

/// To take positions from the layout a second time changes nothing more.
pub proof fn law_stamping_twice(
    streams: Seq<StreamView>,
    ds: Seq<WaylandDisplayInfo>,
    hyprland: bool,
)
    ensures
        stamped_streams(stamped_streams(streams, ds, hyprland), ds, hyprland) == stamped_streams(
            streams,
            ds,
            hyprland,
        ),
{
    if hyprland {
        let once = stamped_streams(streams, ds, hyprland);
        let twice = stamped_streams(once, ds, hyprland);
        assert forall|i: int| 0 <= i < streams.len() implies twice[i] == once[i] by {
            assert(stamped(stamped(streams[i], ds), ds) == stamped(streams[i], ds));
        }
        assert(twice =~= once);
    }
}

/// A stream that names a monitor of the layout is at the place of that monitor, and it is that
/// monitor that it shows.
pub proof fn law_stamped_stream_is_at_its_monitor(s: StreamView, ds: Seq<WaylandDisplayInfo>)
    requires
        s.mapping_id matches Some(id) && first_where(ds, named(id)) is Some,
    ensures
        shown_display(s, ds) matches Some(i) && {
            &&& 0 <= i < ds.len()
            &&& ds[i].name@ == s.mapping_id->0
            &&& stamped(s, ds).position == (ds[i].x, ds[i].y)
        },
{
    lemma_first_where(ds, named(s.mapping_id->0));
}

proof fn lemma_last_named(entries: Seq<(String, Arg)>, n: nat, name: Seq<char>)
    requires
        n <= entries.len(),
    ensures
        match last_named(entries, n, name) {
            Some(a) => exists|i: int|
                0 <= i < n && (#[trigger] entries[i]).0@ == name && entries[i].1 == a && forall|k: int|
                    i < k < n ==> (#[trigger] entries[k]).0@ != name,
            None => forall|k: int| 0 <= k < n ==> (#[trigger] entries[k]).0@ != name,
        },
    decreases n,
{
    if n > 0 {
        if entries[n - 1].0@ == name {
            assert(entries[n - 1].1 == last_named(entries, n, name)->0);
        } else {
            lemma_last_named(entries, (n - 1) as nat, name);
            match last_named(entries, (n - 1) as nat, name) {
                Some(a) => {
                    let i = choose|i: int|
                        0 <= i < n - 1 && (#[trigger] entries[i]).0@ == name && entries[i].1 == a
                            && forall|k: int|
                            i < k < n - 1 ==> (#[trigger] entries[k]).0@ != name;
                    assert(entries[i].0@ == name);
                },
                None => {},
            }
        }
    }
}

/// A name has the value that stands last beside it, and none exactly where it does not occur.
pub proof fn law_last_value_counts(results: PortalResults, name: Seq<char>, i: int)
    requires
        0 <= i < results.entries@.len(),
        results.entries@[i].0@ == name,
        forall|k: int|
            i < k < results.entries@.len() ==> (#[trigger] results.entries@[k]).0@ != name,
    ensures
        results.value(name) == Some(results.entries@[i].1),
{
    lemma_last_named(results.entries@, results.entries@.len(), name);
}

/// A name that does not occur has no value.
pub proof fn law_absent_name_has_no_value(results: PortalResults, name: Seq<char>)
    requires
        forall|k: int|
            0 <= k < results.entries@.len() ==> (#[trigger] results.entries@[k]).0@ != name,
    ensures
        results.value(name) is None,
{
    lemma_last_named(results.entries@, results.entries@.len(), name);
}

/// Keys and values alternate, and each key is a text.
pub open spec fn is_dictionary(entries: Seq<Arg>) -> bool {
    &&& entries.len() % 2 == 0
    &&& forall|i: int|
        0 <= i < entries.len() && i % 2 == 0 ==> (#[trigger] entries[i]).text is Some
}

proof fn lemma_dictionary(entries: Seq<Arg>)
    requires
        is_dictionary(entries),
    ensures
        dict_keys(entries).len() == entries.len() / 2,
        dict_values(entries).len() == entries.len() / 2,
        forall|k: int|
            0 <= k < entries.len() / 2 ==> #[trigger] dict_keys(entries)[k] == entries[2
                * k].text->0@,
        forall|k: int|
            0 <= k < entries.len() / 2 ==> #[trigger] dict_values(entries)[k] == entries[2 * k + 1],
    decreases entries.len(),
{
    if entries.len() > 0 {
        let less = entries.drop_last();
        let rest = less.drop_last();
        assert(is_dictionary(rest)) by {
            assert forall|i: int| 0 <= i < rest.len() && i % 2 == 0 implies (
            #[trigger] rest[i]).text is Some by {
                assert(rest[i] == entries[i]);
            }
        }
        lemma_dictionary(rest);
        let n = entries.len() / 2;
        assert(less.last() == entries[2 * (n - 1)]);
        assert(entries[2 * (n - 1)].text is Some);
        assert(dict_keys(entries) == dict_keys(rest).push(less.last().text->0@)) by {
            reveal_with_fuel(dict_keys, 3);
        }
        assert(dict_values(entries) == dict_values(rest).push(entries.last())) by {
            reveal_with_fuel(dict_values, 3);
        }
        assert forall|k: int| 0 <= k < n implies #[trigger] dict_keys(entries)[k] == entries[2
            * k].text->0@ by {
            if k < n - 1 {
                assert(dict_keys(rest)[k] == rest[2 * k].text->0@);
                assert(rest[2 * k] == entries[2 * k]);
            }
        }
        assert forall|k: int| 0 <= k < n implies #[trigger] dict_values(entries)[k] == entries[2 * k
            + 1] by {
            if k < n - 1 {
                assert(dict_values(rest)[k] == rest[2 * k + 1]);
                assert(rest[2 * k + 1] == entries[2 * k + 1]);
            }
        }
    }
}

proof fn lemma_last_keyed(keys: Seq<Seq<char>>, values: Seq<Arg>, n: nat, name: Seq<char>, i: int)
    requires
        0 <= i < n,
        keys[i] == name,
        forall|k: int| i < k < n ==> #[trigger] keys[k] != name,
    ensures
        last_keyed(keys, values, n, name) == Some(values[i]),
    decreases n,
{
    if i < n - 1 {
        assert(keys[n - 1] != name);
        lemma_last_keyed(keys, values, (n - 1) as nat, name, i);
    }
}

proof fn lemma_none_keyed(keys: Seq<Seq<char>>, values: Seq<Arg>, n: nat, name: Seq<char>)
    requires
        forall|k: int| 0 <= k < n ==> #[trigger] keys[k] != name,
    ensures
        last_keyed(keys, values, n, name) is None,
    decreases n,
{
    if n > 0 {
        lemma_none_keyed(keys, values, (n - 1) as nat, name);
    }
}

/// An attribute is what follows the last key of that name in a dictionary.
pub proof fn law_attribute_follows_its_key(entries: Seq<Arg>, name: Seq<char>, i: int)
    requires
        is_dictionary(entries),
        0 <= i < entries.len(),
        i % 2 == 0,
        entries[i].text->0@ == name,
        forall|k: int|
            i < k < entries.len() && k % 2 == 0 ==> (#[trigger] entries[k]).text->0@ != name,
    ensures
        attribute(entries, name) == Some(entries[i + 1]),
{
    lemma_dictionary(entries);
    let (keys, values) = (dict_keys(entries), dict_values(entries));
    let n = entries.len() / 2;
    assert(keys[i / 2] == entries[2 * (i / 2)].text->0@);
    assert forall|k: int| i / 2 < k < n implies #[trigger] keys[k] != name by {
        assert(keys[k] == entries[2 * k].text->0@);
    }
    lemma_last_keyed(keys, values, n, name, i / 2);
    assert(values[i / 2] == entries[2 * (i / 2) + 1]);
}

/// A dictionary without a key of that name has no such attribute.
pub proof fn law_absent_key_has_no_attribute(entries: Seq<Arg>, name: Seq<char>)
    requires
        is_dictionary(entries),
        forall|k: int|
            0 <= k < entries.len() && k % 2 == 0 ==> (#[trigger] entries[k]).text->0@ != name,
    ensures
        attribute(entries, name) is None,
{
    lemma_dictionary(entries);
    let (keys, values) = (dict_keys(entries), dict_values(entries));
    let n = entries.len() / 2;
    assert forall|k: int| 0 <= k < n implies #[trigger] keys[k] != name by {
        assert(keys[k] == entries[2 * k].text->0@);
    }
    lemma_none_keyed(keys, values, n, name);
}

/// A value holds two signed numbers, in a list that is the first value inside it.
pub open spec fn holds_pair(a: Arg, x: i64, y: i64) -> bool {
    &&& a.items is Some && a.items->0@.len() > 0
    &&& a.items->0@[0].items is Some
    &&& a.items->0@[0].items->0@.len() == 2
    &&& a.items->0@[0].items->0@[0].int == Some(x)
    &&& a.items->0@[0].items->0@[1].int == Some(y)
}

/// A value describes a stream: its node, then its attributes.
pub open spec fn describes(a: Arg, path: u64, entries: Seq<Arg>) -> bool {
    &&& a.items is Some && a.items->0@.len() >= 2
    &&& a.items->0@[0].uint == Some(path)
    &&& a.items->0@[1].items is Some
    &&& a.items->0@[1].items->0@ == entries
}

/// A stream is what its description tells: the node; the kind, 0 where it is not told; the width
/// and height; the position, (0, 0) where it is not told; and the monitor that it is mapped to.
/// It counts as positioned exactly where its position is told.
pub proof fn law_stream_is_as_described(
    a: Arg,
    path: u64,
    entries: Seq<Arg>,
    width: i64,
    height: i64,
    x: i64,
    y: i64,
)
    requires
        describes(a, path, entries),
        attribute(entries, "size"@) matches Some(size) && holds_pair(size, width, height),
        attribute(entries, "source_type"@) matches Some(kind) ==> kind.uint is Some,
        attribute(entries, "position"@) matches Some(position) ==> holds_pair(position, x, y),
    ensures
        stream_of(a) matches Some(s) && {
            let kind = attribute(entries, "source_type"@);
            let position = attribute(entries, "position"@);
            let mapping = attribute(entries, "mapping_id"@);
            &&& s.0.path == path
            &&& s.0.size == (width as usize, height as usize)
            &&& kind is Some ==> s.0.source_type == kind->0.uint->0
            &&& kind is None ==> s.0.source_type == 0
            &&& position is Some ==> s.0.position == (x as i32, y as i32) && s.1
            &&& position is None ==> s.0.position == (0i32, 0i32) && !s.1
            &&& mapping is Some && mapping->0.text is Some ==> s.0.mapping_id == Some(
                mapping->0.text->0@,
            )
            &&& mapping is None || mapping->0.text is None ==> s.0.mapping_id is None
        },
{
}

/// A description without a size, or with a size, a position or a kind of the wrong form, is no
/// stream; nor is what is no description at all.
pub proof fn law_odd_descriptions_are_no_streams(a: Arg, path: u64, entries: Seq<Arg>)
    ensures
        a.items is None ==> stream_of(a) is None,
        a.items is Some && a.items->0@.len() < 2 ==> stream_of(a) is None,
        a.items is Some && a.items->0@.len() >= 2 && a.items->0@[0].uint is None ==> stream_of(
            a,
        ) is None,
        a.items is Some && a.items->0@.len() >= 2 && a.items->0@[1].items is None ==> stream_of(
            a,
        ) is None,
        describes(a, path, entries) && attribute(entries, "size"@) is None ==> stream_of(a) is None,
        describes(a, path, entries) && (attribute(entries, "size"@) matches Some(size)
            && size.items is None) ==> stream_of(a) is None,
        describes(a, path, entries) && (attribute(entries, "position"@) matches Some(position)
            && position.items is None) ==> stream_of(a) is None,
        describes(a, path, entries) && (attribute(entries, "source_type"@) matches Some(kind)
            && kind.uint is None) ==> stream_of(a) is None,
{
}

/// The streams of a list are those of its values, in their order: nothing of the empty list, and
/// of a longer one those of the values before the last, and then that of the last, if it is one.
pub proof fn law_streams_come_in_order(list: Seq<Arg>, n: nat)
    requires
        n < list.len(),
    ensures
        streams_among(list, 0).len() == 0,
        stream_of(list[n as int]) is Some ==> streams_among(list, n + 1) == streams_among(
            list,
            n,
        ).push((stream_of(list[n as int])->0).0),
        stream_of(list[n as int]) is None ==> streams_among(list, n + 1) == streams_among(list, n),
{
}

/// No described stream is lost, and none is made up: where each value of a list is a stream, there
/// is just one for each.
pub proof fn law_each_description_gives_its_stream(list: Seq<Arg>, n: nat, i: int)
    requires
        n <= list.len(),
        0 <= i < n,
        forall|k: int| 0 <= k < n ==> stream_of(#[trigger] list[k]) is Some,
    ensures
        streams_among(list, n).len() == n,
        streams_among(list, n)[i] == (stream_of(list[i])->0).0,
    decreases n,
{
    assert(stream_of(list[n - 1]) is Some);
    if i < n - 1 {
        law_each_description_gives_its_stream(list, (n - 1) as nat, i);
    } else if n > 1 {
        law_each_description_gives_its_stream(list, (n - 1) as nat, 0);
    } else {
        assert(streams_among(list, 0).len() == 0);
    }
}

/// The streams of a response stand in the first value inside `streams`; the positions are known
/// exactly where one of them tells its own.
pub proof fn law_streams_of_a_response(results: PortalResults, a: Arg)
    requires
        results.value("streams"@) == Some(a),
    ensures
        a.items is Some && a.items->0@.len() > 0 && a.items->0@[0].items is Some ==> stream_list(
            results,
        ) == a.items->0@[0].items->0@,
        a.items is None || a.items->0@.len() == 0 || a.items->0@[0].items is None ==> stream_list(
            results,
        ).len() == 0,
        tells_position(stream_list(results)) <==> exists|i: int|
            0 <= i < stream_list(results).len() && (stream_of(
                #[trigger] stream_list(results)[i],
            ) matches Some(s) && s.1),
{
    let list = stream_list(results);
    if exists|i: int| 0 <= i < list.len() && (stream_of(#[trigger] list[i]) matches Some(s) && s.1) {
        let i = choose|i: int|
            0 <= i < list.len() && (stream_of(#[trigger] list[i]) matches Some(s) && s.1);
        assert(is_positioned(list[i]));
    }
}

/// Streams belong to the monitor that the mapping of the first one names, if there is such a
/// monitor, whatever its size.
pub proof fn law_mapping_tells_the_monitor(
    streams: Seq<StreamView>,
    ds: Seq<WaylandDisplayInfo>,
    i: int,
)
    requires
        streams.len() > 0,
        0 <= i < ds.len(),
        streams[0].mapping_id == Some(ds[i].name@),
    ensures
        shown_monitor(streams, ds) == Some(ds[i].name@),
{
    lemma_first_where(ds, named(ds[i].name@));
    assert(named(ds[i].name@)(ds[i]));
}

/// Where the mapping of the first stream names no monitor, the streams belong to the first monitor
/// that has both its width and its height; and to none where there is no such monitor.
pub proof fn law_size_tells_the_monitor(
    streams: Seq<StreamView>,
    ds: Seq<WaylandDisplayInfo>,
    i: int,
)
    requires
        streams.len() > 0,
        streams[0].mapping_id matches Some(id) ==> forall|k: int|
            0 <= k < ds.len() ==> (#[trigger] ds[k]).name@ != id,
        0 <= i <= ds.len(),
        forall|k: int|
            0 <= k < i ==> (#[trigger] ds[k]).width as usize != streams[0].size.0
                || ds[k].height as usize != streams[0].size.1,
        i < ds.len() ==> ds[i].width as usize == streams[0].size.0 && ds[i].height as usize
            == streams[0].size.1,
    ensures
        i < ds.len() ==> shown_monitor(streams, ds) == Some(ds[i].name@),
        i == ds.len() ==> shown_monitor(streams, ds) is None,
{
    let size = streams[0].size;
    lemma_first_where(ds, sized(size));
    match streams[0].mapping_id {
        Some(id) => {
            lemma_first_where(ds, named(id));
        },
        None => {},
    }
    match first_where(ds, sized(size)) {
        Some(k) => {
            assert(sized(size)(ds[k]));
            if k < i {
                assert(ds[k].width as usize != size.0 || ds[k].height as usize != size.1);
            } else if i < k {
                assert(!sized(size)(ds[i]));
            }
        },
        None => {
            if i < ds.len() {
                assert(!sized(size)(ds[i]));
            }
        },
    }
}

/// Without streams no monitor is told.
pub proof fn law_no_streams_no_monitor(ds: Seq<WaylandDisplayInfo>)
    ensures
        shown_monitor(seq![], ds) is None,
{
}

/// On Hyprland a stream that names a monitor of the layout is put at the place of the first monitor
/// of that name, and keeps all else. A stream that names none keeps its place; and off Hyprland
/// all do.
pub proof fn law_streams_are_stamped_by_name(
    streams: Seq<StreamView>,
    ds: Seq<WaylandDisplayInfo>,
    hyprland: bool,
    n: int,
    i: int,
)
    requires
        0 <= n < streams.len(),
        0 <= i <= ds.len(),
        streams[n].mapping_id matches Some(id) ==> forall|k: int|
            0 <= k < i ==> (#[trigger] ds[k]).name@ != id,
        i < ds.len() ==> streams[n].mapping_id == Some(ds[i].name@),
    ensures
        ({
            let after = stamped_streams(streams, ds, hyprland);
            &&& after.len() == streams.len()
            &&& after[n].path == streams[n].path && after[n].size == streams[n].size
            &&& after[n].source_type == streams[n].source_type
            &&& after[n].mapping_id == streams[n].mapping_id
            &&& hyprland && i < ds.len() ==> after[n].position == (ds[i].x, ds[i].y)
            &&& !hyprland || i == ds.len() ==> after[n].position == streams[n].position
        }),
{
    match streams[n].mapping_id {
        Some(id) => {
            lemma_first_where(ds, named(id));
            match first_where(ds, named(id)) {
                Some(k) => {
                    assert(named(id)(ds[k]));
                    if k < i {
                        assert(ds[k].name@ != id);
                    } else if i < k {
                        assert(!named(id)(ds[i]));
                    }
                },
                None => {
                    if i < ds.len() {
                        assert(!named(id)(ds[i]));
                    }
                },
            }
        },
        None => {},
    }
}

/// Two numbers are read from the first list among some values; values before it that are no lists
/// do not matter, and a list of another length gives none. What is no number counts as 0.
pub proof fn law_pairs_are_read_from_the_first_list(items: Seq<Arg>)
    ensures
        items.len() == 0 ==> number_pair(items) is None,
        items.len() > 0 && items[0].items is None ==> number_pair(items) == number_pair(
            items.drop_first(),
        ),
        items.len() > 0 && items[0].items is Some && items[0].items->0@.len() != 2 ==> number_pair(
            items,
        ) is None,
        items.len() > 0 && items[0].items is Some && items[0].items->0@.len() == 2 ==> {
            let list = items[0].items->0@;
            &&& number_pair(items) is Some
            &&& list[0].int is Some ==> (number_pair(items)->0).0 == list[0].int->0
            &&& list[0].int is None ==> (number_pair(items)->0).0 == 0
            &&& list[1].int is Some ==> (number_pair(items)->0).1 == list[1].int->0
            &&& list[1].int is None ==> (number_pair(items)->0).1 == 0
        },
{
}

/// A size or a position that is no pair leaves the stream at 0, and the stream not positioned.
pub proof fn law_numbers_that_are_no_pair(a: Arg, path: u64, entries: Seq<Arg>)
    requires
        describes(a, path, entries),
        attribute(entries, "size"@) matches Some(size) && size.items is Some,
        attribute(entries, "source_type"@) is None,
        attribute(entries, "position"@) matches Some(position) ==> position.items is Some,
    ensures
        stream_of(a) matches Some(s) && {
            let size = (attribute(entries, "size"@)->0).items->0@;
            let position = attribute(entries, "position"@);
            &&& number_pair(size) is None ==> s.0.size == (0usize, 0usize)
            &&& number_pair(size) is Some ==> s.0.size == (
                (number_pair(size)->0).0 as usize,
                (number_pair(size)->0).1 as usize,
            )
            &&& position is Some && number_pair((position->0).items->0@) is None
                ==> s.0.position == (0i32, 0i32) && !s.1
            &&& position is Some && number_pair((position->0).items->0@) is Some ==> s.1
        },
{
}

/// Streams are told as they are, one by one and field by field.
pub proof fn law_streams_are_told_as_they_are(streams: Seq<PwStreamInfo>, i: int)
    requires
        0 <= i < streams.len(),
    ensures
        stream_views(streams).len() == streams.len(),
        ({
            let (s, v) = (streams[i], stream_views(streams)[i]);
            &&& v.path == s.path && v.source_type == s.source_type
            &&& v.position == s.position && v.size == s.size
            &&& s.mapping_id is None ==> v.mapping_id is None
            &&& s.mapping_id is Some ==> v.mapping_id == Some(s.mapping_id->0@)
        }),
{
}

} // verus!
