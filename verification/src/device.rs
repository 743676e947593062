//! Output devices: their list, and the one that a selector means.

use crate::error::EchoError;
use crate::paths;
use crate::seqs;
use crate::text;
use vstd::prelude::*;

verus! {

/// Selectors that mean the system's own choice.
pub const DEFAULT_SELECTORS: [&'static str; 7] = [
    "default",
    "system",
    "auto",
    "clear",
    "reset",
    "默认",
    "系统默认",
];

#[derive(Debug, PartialEq, Eq)]
pub struct AudioDevice {
    pub id: String,
    pub name: String,
    pub is_default: bool,
}

impl Clone for AudioDevice {
    fn clone(&self) -> (r: Self)
        ensures
            r == *self,
    {
        AudioDevice {
            id: self.id.clone(),
            name: self.name.clone(),
            is_default: self.is_default,
        }
    }
}

// ---------------------------------------------------------------- the list

pub ghost struct Device {
    pub id: Seq<char>,
    pub name: Seq<char>,
    pub is_default: bool,
}

impl View for AudioDevice {
    type V = Device;

    open spec fn view(&self) -> Device {
        Device { id: self.id@, name: self.name@, is_default: self.is_default }
    }
}

pub open spec fn devices(list: Seq<AudioDevice>) -> Seq<Device> {
    Seq::new(list.len(), |i: int| list[i]@)
}

pub open spec fn fallback_spec(default_name: Option<Seq<char>>) -> Seq<Device> {
    seq![
        Device {
            id: "cpal-output-default"@,
            name: match default_name {
                Some(name) => name,
                None => "system default"@,
            },
            is_default: true,
        },
    ]
}

/// The list where no device can be told apart.
pub fn fallback_devices(default_name: Option<String>) -> (r: Vec<AudioDevice>)
    ensures
        devices(r@) == fallback_spec(paths::view_of(default_name)),
{
    let ghost expected = fallback_spec(paths::view_of(default_name));
    let name = match default_name {
        Some(name) => name,
        None => "system default".to_owned(),
    };
    let r = vec![
        AudioDevice { id: "cpal-output-default".to_owned(), name, is_default: true },
    ];
    assert(devices(r@) =~= expected);
    r
}

/// Device `index`, with the name it gives or, where it gives none, its number.
pub open spec fn device_spec(
    index: nat,
    name: Option<Seq<char>>,
    default_name: Option<Seq<char>>,
) -> Device {
    let shown = match name {
        Some(name) => name,
        None => "unknown output device "@ + text::decimal_spec(index),
    };
    Device {
        id: "cpal-output-"@ + text::decimal_spec(index),
        name: shown,
        is_default: default_name == Some(shown),
    }
}

fn named_device(index: usize, name: &Option<String>, default_name: &Option<String>) -> (r: AudioDevice)
    ensures
        r@ == device_spec(index as nat, paths::view_of(*name), paths::view_of(*default_name)),
{
    let number = text::decimal(index as u128);
    let shown = match name {
        Some(name) => name.clone(),
        None => text::text2("unknown output device ", &number),
    };
    let is_default = match default_name {
        Some(default_name) => text::same_text(default_name.as_str(), shown.as_str()),
        None => false,
    };
    AudioDevice { id: text::text2("cpal-output-", &number), name: shown, is_default }
}

pub open spec fn device_list_spec(
    names: Seq<Option<String>>,
    default_name: Option<Seq<char>>,
) -> Seq<Device> {
    Seq::new(
        names.len(),
        |i: int| device_spec(i as nat, paths::view_of(names[i]), default_name),
    )
}

/// The devices in their order, from the names they give.
pub fn named_devices(names: &[Option<String>], default_name: &Option<String>) -> (r: Vec<
    AudioDevice,
>)
    ensures
        devices(r@) == device_list_spec(names@, paths::view_of(*default_name)),
{
    let ghost expected = device_list_spec(names@, paths::view_of(*default_name));
    let mut r: Vec<AudioDevice> = Vec::new();
    for i in 0..names.len()
        invariant
            expected == device_list_spec(names@, paths::view_of(*default_name)),
            r@.len() == i,
            forall|j: int| 0 <= j < i ==> (#[trigger] r@[j])@ == expected[j],
    {
        r.push(named_device(i, &names[i], default_name));
    }
    assert(devices(r@) =~= expected);
    r
}

/// The list to show: what was found, or the one device that is always there.
pub fn list_devices(names: Option<Vec<Option<String>>>, default_name: Option<String>) -> (r: Vec<
    AudioDevice,
>)
    ensures
        devices(r@) == match names {
            Some(names) if names@.len() > 0 => device_list_spec(
                names@,
                paths::view_of(default_name),
            ),
            _ => fallback_spec(paths::view_of(default_name)),
        },
        r@.len() > 0,
{
    match names {
        Some(names) => if names.len() > 0 {
            let r = named_devices(&names, &default_name);
            assert(devices(r@).len() == r@.len());
            r
        } else {
            let r = fallback_devices(default_name);
            assert(devices(r@).len() == r@.len());
            r
        },
        None => {
            let r = fallback_devices(default_name);
            assert(devices(r@).len() == r@.len());
            r
        },
    }
}

pub fn default_device_name(name: Option<String>) -> (r: String)
    ensures
        r@ == match name {
            Some(name) => name@,
            None => "no default output device found"@,
        },
{
    match name {
        Some(name) => name,
        None => "no default output device found".to_owned(),
    }
}

// ---------------------------------------------------------------- selecting

/// A selector as it is compared: trimmed and in lower case.
pub open spec fn normalized(value: Seq<char>) -> Seq<char> {
    text::lowercase(text::trim_spec(value))
}

pub fn normalize_selector(value: &str) -> (r: String)
    ensures
        r@ == normalized(value@),
        (forall|i: int|
            0 <= i < text::trim_spec(value@).len() ==> (#[trigger] text::trim_spec(value@)[i] as u32)
                < 128) ==> r@ == text::ascii_lower_spec(text::trim_spec(value@)),
{
    text::to_lowercase(text::trim(value))
}

pub fn is_default_word(normalized_selector: &str) -> (r: bool)
    ensures
        r == text::literals(DEFAULT_SELECTORS@).contains(normalized_selector@),
{
    text::is_one_of(normalized_selector, &DEFAULT_SELECTORS)
}

pub fn is_default_output_selector(selector: &str) -> (r: bool)
    ensures
        r == text::literals(DEFAULT_SELECTORS@).contains(normalized(selector@)),
{
    is_default_word(&normalize_selector(selector))
}

/// Which device is meant: the system's choice, or a named one.
#[derive(Debug, PartialEq, Eq)]
pub enum OutputChoice {
    SystemDefault,
    Named(String),
}

pub open spec fn output_choice_spec(selector: Option<Seq<char>>) -> Option<Seq<char>> {
    match selector {
        None => None,
        Some(selector) => {
            let trimmed = text::trim_spec(selector);
            if trimmed.len() == 0 || text::literals(DEFAULT_SELECTORS@).contains(
                normalized(trimmed),
            ) {
                None
            } else {
                Some(trimmed)
            }
        },
    }
}

pub fn output_choice(selector: Option<&str>) -> (r: OutputChoice)
    ensures
        match output_choice_spec(
            match selector {
                Some(selector) => Some(selector@),
                None => None,
            },
        ) {
            None => r is SystemDefault,
            Some(name) => r matches OutputChoice::Named(chosen) && chosen@ == name,
        },
{
    match selector {
        None => OutputChoice::SystemDefault,
        Some(selector) => {
            let trimmed = text::trim(selector);
            if trimmed.is_empty() || is_default_output_selector(trimmed) {
                OutputChoice::SystemDefault
            } else {
                OutputChoice::Named(trimmed.to_owned())
            }
        },
    }
}

/// The id and name of a device, trimmed and in lower case.
#[derive(Debug, PartialEq, Eq)]
pub struct DeviceKey {
    pub id: String,
    pub name: String,
}

/// A device as selectors are compared with it.
pub ghost struct Key {
    pub id: Seq<char>,
    pub name: Seq<char>,
}

impl View for DeviceKey {
    type V = Key;

    open spec fn view(&self) -> Key {
        Key { id: self.id@, name: self.name@ }
    }
}

pub open spec fn key_views(keys: Seq<DeviceKey>) -> Seq<Key> {
    Seq::new(keys.len(), |i: int| keys[i]@)
}

#[derive(Debug, Clone, Copy, PartialEq, Eq, Structural)]
pub enum Selection {
    Found(usize),
    NoDevices,
    NoMatch,
    Ambiguous,
}

pub open spec fn same_as(selector: Seq<char>) -> spec_fn(Key) -> bool {
    |key: Key| key.id == selector || key.name == selector
}

pub open spec fn named_like(selector: Seq<char>) -> spec_fn(Key) -> bool {
    |key: Key| text::contains_spec(key.name, selector)
}

/// The first position that `p` selects.
pub open spec fn first_where(keys: Seq<Key>, p: spec_fn(Key) -> bool) -> Option<nat>
    decreases keys.len(),
{
    if keys.len() == 0 {
        None
    } else {
        match first_where(keys.drop_last(), p) {
            Some(i) => Some(i),
            None => if p(keys.last()) {
                Some((keys.len() - 1) as nat)
            } else {
                None
            },
        }
    }
}

/// An exact id or name wins; else a part of a name that fits one device only.
pub open spec fn selection_spec(keys: Seq<Key>, selector: Seq<char>) -> Selection {
    if keys.len() == 0 {
        Selection::NoDevices
    } else {
        match first_where(keys, same_as(selector)) {
            Some(i) => Selection::Found(i as usize),
            None => {
                let count = keys.filter(named_like(selector)).len();
                if count == 0 {
                    Selection::NoMatch
                } else if count == 1 {
                    Selection::Found(first_where(keys, named_like(selector))->0 as usize)
                } else {
                    Selection::Ambiguous
                }
            },
        }
    }
}

proof fn lemma_first_where_stays(
    keys: Seq<Key>,
    p: spec_fn(Key) -> bool,
    k: int,
)
    requires
        0 <= k <= keys.len(),
        first_where(keys.take(k), p) is Some,
    ensures
        first_where(keys, p) == first_where(keys.take(k), p),
    decreases keys.len(),
{
    if k < keys.len() {
        assert(keys.drop_last().take(k) =~= keys.take(k));
        lemma_first_where_stays(keys.drop_last(), p, k);
    } else {
        assert(keys.take(k) =~= keys);
    }
}

pub fn select_key(keys: &[DeviceKey], selector: &str) -> (r: Selection)
    ensures
        r == selection_spec(key_views(keys@), selector@),
{
    let ghost all = key_views(keys@);
    if keys.len() == 0 {
        return Selection::NoDevices;
    }
    let ghost exact = same_as(selector@);
    let ghost like = named_like(selector@);
    assert(first_where(all.take(0), exact) is None);
    for i in 0..keys.len()
        invariant
            all == key_views(keys@),
            keys@.len() > 0,
            exact == same_as(selector@),
            first_where(all.take(i as int), exact) is None,
    {
        proof {
            assert(all.take(i + 1).drop_last() =~= all.take(i as int));
            assert(all.take(i + 1).last() == keys@[i as int]@);
        }
        if text::same_text(keys[i].id.as_str(), selector) || text::same_text(
            keys[i].name.as_str(),
            selector,
        ) {
            proof {
                lemma_first_where_stays(all, exact, i + 1);
            }
            return Selection::Found(i);
        }
    }
    assert(all.take(all.len() as int) =~= all);
    let mut count: usize = 0;
    let mut first: usize = 0;
    proof {
        seqs::lemma_filter_none(all, like);
        assert(first_where(all.take(0), like) is None);
    }
    for i in 0..keys.len()
        invariant
            all == key_views(keys@),
            like == named_like(selector@),
            count == all.take(i as int).filter(like).len(),
            count <= i,
            count == 0 ==> first_where(all.take(i as int), like) is None,
            count > 0 ==> first_where(all.take(i as int), like) == Some(first as nat),
    {
        proof {
            seqs::lemma_filter_step(all, like, i as int);
            assert(all.take(i + 1).drop_last() =~= all.take(i as int));
            assert(all.take(i + 1).last() == keys@[i as int]@);
        }
        if text::contains(keys[i].name.as_str(), selector) {
            if count == 0 {
                first = i;
            }
            count = count + 1;
        }
    }
    if count == 0 {
        Selection::NoMatch
    } else if count == 1 {
        Selection::Found(first)
    } else {
        Selection::Ambiguous
    }
}

/// The devices as selectors are compared with them.
pub open spec fn keys_spec(list: Seq<AudioDevice>) -> Seq<Key> {
    Seq::new(
        list.len(),
        |i: int| Key { id: normalized(list[i].id@), name: normalized(list[i].name@) },
    )
}

fn device_keys(list: &[AudioDevice]) -> (r: Vec<DeviceKey>)
    ensures
        key_views(r@) == keys_spec(list@),
{
    let mut r: Vec<DeviceKey> = Vec::new();
    for i in 0..list.len()
        invariant
            r@.len() == i,
            forall|j: int| 0 <= j < i ==> (#[trigger] r@[j])@ == keys_spec(list@)[j],
    {
        let id = normalize_selector(list[i].id.as_str());
        let name = normalize_selector(list[i].name.as_str());
        r.push(DeviceKey { id, name });
    }
    assert(key_views(r@) =~= keys_spec(list@));
    r
}

/// The device that a selector means, or why it means none.
pub fn select_from_devices(list: &[AudioDevice], selector: &str) -> (r: Result<usize, EchoError>)
    ensures
        match selection_spec(keys_spec(list@), normalized(selector@)) {
            Selection::Found(i) => r == Ok::<usize, EchoError>(i),
            Selection::NoDevices => r matches Err(EchoError::Audio(message)) && message@
                == "no output devices found"@,
            Selection::NoMatch => r matches Err(EchoError::Audio(message)) && message@
                == "no output device matches '"@ + selector@ + "'"@,
            Selection::Ambiguous => r matches Err(EchoError::Audio(message)) && message@
                == "output device selector '"@ + selector@ + "' is ambiguous"@,
        },
{
    let keys = device_keys(list);
    let wanted = normalize_selector(selector);
    match select_key(&keys, &wanted) {
        Selection::Found(i) => Ok(i),
        Selection::NoDevices => Err(EchoError::Audio("no output devices found".to_owned())),
        Selection::NoMatch => Err(
            EchoError::Audio(text::text3("no output device matches '", selector, "'")),
        ),
        Selection::Ambiguous => Err(
            EchoError::Audio(text::text3("output device selector '", selector, "' is ambiguous")),
        ),
    }
}

/// What was found is one of the devices.
pub proof fn selection_is_a_device(keys: Seq<Key>, selector: Seq<char>)
    requires
        keys.len() <= usize::MAX,
    ensures
        selection_spec(keys, selector) matches Selection::Found(i) ==> i < keys.len() && (same_as(
            selector,
        )(keys[i as int]) || named_like(selector)(keys[i as int])),
{
    lemma_first_where_holds(keys, same_as(selector));
    lemma_first_where_holds(keys, named_like(selector));
    lemma_first_where_found(keys, named_like(selector));
}

proof fn lemma_first_where_holds(keys: Seq<Key>, p: spec_fn(Key) -> bool)
    ensures
        first_where(keys, p) matches Some(i) ==> i < keys.len() && p(keys[i as int]),
    decreases keys.len(),
{
    if keys.len() > 0 {
        lemma_first_where_holds(keys.drop_last(), p);
    }
}

proof fn lemma_first_where_found(keys: Seq<Key>, p: spec_fn(Key) -> bool)
    ensures
        keys.filter(p).len() > 0 ==> first_where(keys, p) is Some,
    decreases keys.len(),
{
    reveal(Seq::filter);
    if keys.len() > 0 {
        lemma_first_where_found(keys.drop_last(), p);
    }
}

// ---------------------------------------------------------------- lines

pub open spec fn shell_line_spec(device: Device) -> Seq<char> {
    device.name + " ["@ + device.id + "]"@ + if device.is_default {
        " default"@
    } else {
        ""@
    }
}

/// The devices as the shell lists them.
pub fn shell_device_lines(list: &[AudioDevice]) -> (r: Vec<String>)
    ensures
        text::texts(r@) == Seq::new(list@.len(), |i: int| shell_line_spec(list@[i]@)),
{
    let mut r: Vec<String> = Vec::new();
    for i in 0..list.len()
        invariant
            r@.len() == i,
            forall|j: int| 0 <= j < i ==> (#[trigger] r@[j])@ == shell_line_spec(list@[j]@),
    {
        let device = &list[i];
        r.push(
            text::text5(
                device.name.as_str(),
                " [",
                device.id.as_str(),
                "]",
                if device.is_default {
                    " default"
                } else {
                    ""
                },
            ),
        );
    }
    assert(text::texts(r@) =~= Seq::new(list@.len(), |i: int| shell_line_spec(list@[i]@)));
    r
}

/// A device that has the selector as its id or its name is taken, the first of them; failing that
/// the only one whose name holds it. Several such are told apart by nobody, and none is no match.
pub proof fn selections_follow_the_names(keys: Seq<Key>, selector: Seq<char>, i: int)
    requires
        0 <= i < keys.len() <= usize::MAX,
    ensures
        ({
            let exact = |k: int| keys[k].id == selector || keys[k].name == selector;
            let part = |k: int| text::contains_spec(keys[k].name, selector);
            let selection = selection_spec(keys, selector);
            &&& exact(i) && (forall|j: int| 0 <= j < i ==> !#[trigger] exact(j)) ==> selection
                == Selection::Found(i as usize)
            &&& (forall|j: int| 0 <= j < keys.len() ==> !#[trigger] exact(j)) ==> {
                &&& (forall|j: int| 0 <= j < keys.len() ==> !#[trigger] part(j)) ==> selection
                    == Selection::NoMatch
                &&& part(i) && (forall|j: int| 0 <= j < keys.len() && j != i ==> !#[trigger] part(
                    j,
                )) ==> selection == Selection::Found(i as usize)
                &&& part(i) && (exists|j: int| 0 <= j < keys.len() && j != i && #[trigger] part(j))
                    ==> selection == Selection::Ambiguous
            }
        }),
{
    let exact = |k: int| keys[k].id == selector || keys[k].name == selector;
    let part = |k: int| text::contains_spec(keys[k].name, selector);
    lemma_first_where_is(keys, same_as(selector));
    lemma_first_where_is(keys, named_like(selector));
    if exact(i) && (forall|j: int| 0 <= j < i ==> !#[trigger] exact(j)) {
        assert(same_as(selector)(keys[i]));
        let found = first_where(keys, same_as(selector))->0 as int;
        if found < i {
            assert(exact(found));
        }
    }
    if forall|j: int| 0 <= j < keys.len() ==> !#[trigger] exact(j) {
        match first_where(keys, same_as(selector)) {
            Some(k) => {
                assert(exact(k as int));
            },
            None => {},
        }
        let matches = keys.filter(named_like(selector));
        seqs::lemma_filter_members(keys, named_like(selector));
        if forall|j: int| 0 <= j < keys.len() ==> !#[trigger] part(j) {
            if matches.len() > 0 {
                assert(named_like(selector)(matches[0]) && keys.contains(matches[0]));
                let k = choose|k: int| 0 <= k < keys.len() && keys[k] == matches[0];
                assert(part(k));
            }
        }
        if part(i) {
            lemma_filter_count(keys, named_like(selector), i);
            if forall|j: int| 0 <= j < keys.len() && j != i ==> !#[trigger] part(j) {
                assert forall|j: int| 0 <= j < keys.len() && j != i implies !named_like(selector)(
                    #[trigger] keys[j],
                ) by {
                    assert(!part(j));
                }
                let found = first_where(keys, named_like(selector))->0 as int;
                assert(part(found));
            }
            if exists|j: int| 0 <= j < keys.len() && j != i && #[trigger] part(j) {
                let j = choose|j: int| 0 <= j < keys.len() && j != i && #[trigger] part(j);
                assert(named_like(selector)(keys[j]));
            }
        }
    }
}

proof fn lemma_first_where_is(keys: Seq<Key>, p: spec_fn(Key) -> bool)
    ensures
        match first_where(keys, p) {
            Some(k) => k < keys.len() && p(keys[k as int]) && forall|j: int|
                0 <= j < k ==> !p(#[trigger] keys[j]),
            None => forall|j: int| 0 <= j < keys.len() ==> !p(#[trigger] keys[j]),
        },
    decreases keys.len(),
{
    if keys.len() > 0 {
        let fewer = keys.drop_last();
        lemma_first_where_is(fewer, p);
        assert(forall|j: int| 0 <= j < fewer.len() ==> fewer[j] == #[trigger] keys[j]);
    }
}

/// Exactly one key is kept where `i` alone is, and more where another one is, too.
proof fn lemma_filter_count(keys: Seq<Key>, p: spec_fn(Key) -> bool, i: int)
    requires
        0 <= i < keys.len(),
        p(keys[i]),
    ensures
        (forall|j: int| 0 <= j < keys.len() && j != i ==> !p(#[trigger] keys[j])) ==> keys.filter(
            p,
        ).len() == 1,
        (exists|j: int| 0 <= j < keys.len() && j != i && p(#[trigger] keys[j])) ==> keys.filter(
            p,
        ).len() > 1,
    decreases keys.len(),
{
    reveal(Seq::filter);
    let fewer = keys.drop_last();
    assert(forall|j: int| 0 <= j < fewer.len() ==> fewer[j] == #[trigger] keys[j]);
    if i < fewer.len() {
        lemma_filter_count(fewer, p, i);
        seqs::lemma_filter_keeps(fewer, p, i);
        if exists|j: int| 0 <= j < keys.len() && j != i && p(#[trigger] keys[j]) {
            let j = choose|j: int| 0 <= j < keys.len() && j != i && p(#[trigger] keys[j]);
            if j < fewer.len() {
                assert(p(fewer[j]));
            }
        }
    } else {
        if forall|j: int| 0 <= j < keys.len() && j != i ==> !p(#[trigger] keys[j]) {
            assert forall|j: int| 0 <= j < fewer.len() implies !p(#[trigger] fewer[j]) by {
                assert(!p(keys[j]));
            }
            seqs::lemma_filter_members(fewer, p);
            if fewer.filter(p).len() > 0 {
                assert(p(fewer.filter(p)[0]) && fewer.contains(fewer.filter(p)[0]));
            }
        }
        if exists|j: int| 0 <= j < keys.len() && j != i && p(#[trigger] keys[j]) {
            let j = choose|j: int| 0 <= j < keys.len() && j != i && p(#[trigger] keys[j]);
            assert(p(fewer[j]));
            seqs::lemma_filter_keeps(fewer, p, j);
        }
    }
}

/// Every device is listed with a name of its own, and marked where that is the default's.
pub proof fn devices_are_listed_by_name(
    names: Seq<Option<String>>,
    default_name: Option<Seq<char>>,
    i: int,
)
    requires
        0 <= i < names.len(),
    ensures
        device_list_spec(names, default_name).len() == names.len(),
        names[i] matches Some(name) ==> device_list_spec(names, default_name)[i].name == name@,
        names[i] matches Some(name) ==> (device_list_spec(names, default_name)[i].is_default
            <==> default_name == Some(name@)),
        text::ends_with_spec(
            device_list_spec(names, default_name)[i].id,
            text::decimal_spec(i as nat),
        ),
{
    let id = device_list_spec(names, default_name)[i].id;
    let number = text::decimal_spec(i as nat);
    assert(id.skip(id.len() - number.len()) =~= number);
}

/// A blank selector, and each word for the system's own device, leave the choice to the system; any
/// other one is looked for without the white space around it.
pub proof fn choices_name_a_device_or_the_system(selector: Seq<char>, word: int)
    requires
        0 <= word < 7,
    ensures
        output_choice_spec(None) is None,
        text::trim_spec(selector).len() == 0 ==> output_choice_spec(Some(selector)) is None,
        normalized(text::trim_spec(selector)) == seq![
            "default"@,
            "system"@,
            "auto"@,
            "clear"@,
            "reset"@,
            "默认"@,
            "系统默认"@,
        ][word] ==> output_choice_spec(Some(selector)) is None,
        output_choice_spec(Some(selector)) matches Some(chosen) ==> chosen == text::trim_spec(
            selector,
        ),
        output_choice_spec(Some(selector)) is None && text::trim_spec(selector).len() > 0
            ==> text::literals(DEFAULT_SELECTORS@).contains(normalized(text::trim_spec(selector))),
{
    let words = text::literals(DEFAULT_SELECTORS@);
    assert(words[0] == "default"@ && words[1] == "system"@ && words[2] == "auto"@ && words[3]
        == "clear"@ && words[4] == "reset"@ && words[5] == "默认"@ && words[6] == "系统默认"@);
}

/// Devices are looked for by their own id and name, in lower case and without white space around
/// them.
pub proof fn devices_are_found_by_id_and_name(list: Seq<AudioDevice>, i: int)
    requires
        0 <= i < list.len(),
    ensures
        keys_spec(list).len() == list.len(),
        keys_spec(list)[i].id == text::lowercase(text::trim_spec(list[i].id@)),
        keys_spec(list)[i].name == text::lowercase(text::trim_spec(list[i].name@)),
{
}

/// A device is shown by its name and its id, and marked where it is the default.
pub proof fn devices_are_shown_by_name_and_id(device: Device)
    ensures
        text::starts_with_spec(shell_line_spec(device), device.name + " ["@ + device.id + "]"@),
        text::ends_with_spec(shell_line_spec(device), " default"@) || !device.is_default,
        !device.is_default ==> shell_line_spec(device) == device.name + " ["@ + device.id + "]"@,
{
    reveal_strlit("");
    let named = device.name + " ["@ + device.id + "]"@;
    text::begins_and_ends(named, " default"@);
    text::begins_and_ends(named, ""@);
    assert(named + ""@ =~= named);
}

/// A device is known by its number, and is the default where it has the default's name; without any
/// list there is the default alone.
pub proof fn devices_are_numbered_and_named(
    index: nat,
    name: Seq<char>,
    default_name: Option<Seq<char>>,
)
    ensures
        device_spec(index, Some(name), default_name).name == name,
        text::ends_with_spec(device_spec(index, Some(name), default_name).id, text::decimal_spec(index)),
        device_spec(index, Some(name), default_name).is_default <==> default_name == Some(name),
        device_spec(index, None, default_name).id == device_spec(index, Some(name), default_name).id,
        fallback_spec(default_name).len() == 1,
        fallback_spec(default_name)[0].is_default,
        default_name matches Some(known) ==> fallback_spec(default_name)[0].name == known,
{
    text::begins_and_ends("cpal-output-"@, text::decimal_spec(index));
}

} // verus!
