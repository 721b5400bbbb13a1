//! The names of the controllers of an Elektron Digitakt.
//!
//! The catalog says, for each controller number that the instrument answers
//! to, what the parameter is called and to which page of the instrument it
//! belongs. It is consulted for display only.
use crate::text::{contains_text, same_text, texts};
use std::collections::HashMap;
use vstd::prelude::*;
use vstd::std_specs::hash::group_hash_axioms;
use vstd::string::StringExecFns;

verus! {

/// One parameter of the instrument.
#[derive(Clone, Debug)]
pub struct MidiParameter {
    pub name: String,
    pub cc: u8,
    pub category: String,
}

/// A parameter as contracts see it.
pub struct Entry {
    pub name: Seq<char>,
    pub cc: u8,
    pub category: Seq<char>,
}

impl View for MidiParameter {
    type V = Entry;

    open spec fn view(&self) -> Entry {
        Entry { name: self.name@, cc: self.cc, category: self.category@ }
    }
}

/// The catalog, by controller number.
pub struct MidiMap {
    params_by_cc: HashMap<u8, MidiParameter>,
}

/// The name and the category of the parameter that controller `cc` sets, if
/// the instrument has one for it.
pub open spec fn catalog_entry(cc: u8) -> Option<(Seq<char>, Seq<char>)> {
    match cc {
        2 => Some(("FX Reverb Shelving Freq"@, "FX Reverb"@)),
        3 => Some(("Trig Note"@, "Trig"@)),
        4 => Some(("Trig Velocity"@, "Trig"@)),
        5 => Some(("Trig Length"@, "Trig"@)),
        7 => Some(("Amp Volume"@, "Amp"@)),
        10 => Some(("Amp Pan"@, "Amp"@)),
        13 => Some(("Filter Trig"@, "Trig"@)),
        14 => Some(("LFO Trig"@, "Trig"@)),
        16 => Some(("Source Tune"@, "Source"@)),
        17 => Some(("Source Play Mode"@, "Source"@)),
        18 => Some(("Source Bit Reduction"@, "Source"@)),
        19 => Some(("Source Sample Slot"@, "Source"@)),
        20 => Some(("Source Start"@, "Source"@)),
        21 => Some(("Source Length"@, "Source"@)),
        22 => Some(("Source Loop Position"@, "Source"@)),
        23 => Some(("Source Sample Level"@, "Source"@)),
        24 => Some(("FX Reverb Predelay"@, "FX Reverb"@)),
        25 => Some(("FX Reverb Decay Time"@, "FX Reverb"@)),
        27 => Some(("FX Reverb Shelving Gain"@, "FX Reverb"@)),
        28 => Some(("FX Reverb Highpass Filter"@, "FX Reverb"@)),
        29 => Some(("FX Reverb Lowpass Filter"@, "FX Reverb"@)),
        31 => Some(("FX Reverb Mix Volume"@, "FX Reverb"@)),
        70 => Some(("Filter Attack Time"@, "Filter"@)),
        71 => Some(("Filter Decay Time"@, "Filter"@)),
        72 => Some(("Filter Sustain Level"@, "Filter"@)),
        73 => Some(("Filter Release Time"@, "Filter"@)),
        74 => Some(("Filter Frequency"@, "Filter"@)),
        75 => Some(("Resonance"@, "Filter"@)),
        76 => Some(("Filter Type"@, "Filter"@)),
        77 => Some(("Filter Env Depth"@, "Filter"@)),
        78 => Some(("Amp Attack Time"@, "Amp"@)),
        79 => Some(("Amp Hold Time"@, "Amp"@)),
        80 => Some(("Amp Decay Time"@, "Amp"@)),
        81 => Some(("Amp Overdrive"@, "Amp"@)),
        82 => Some(("Amp Delay Send"@, "Amp"@)),
        83 => Some(("Amp Reverb Send"@, "Amp"@)),
        85 => Some(("FX Delay Time"@, "FX Delay"@)),
        86 => Some(("FX Pingpong"@, "FX Delay"@)),
        87 => Some(("FX Stereo Width"@, "FX Delay"@)),
        88 => Some(("FX Feedback"@, "FX Delay"@)),
        89 => Some(("FX Highpass Filter"@, "FX Delay"@)),
        90 => Some(("FX Lowpass Filter"@, "FX Delay"@)),
        91 => Some(("FX Reverb Send"@, "FX Delay"@)),
        92 => Some(("FX Mix Volume"@, "FX Delay"@)),
        93 => Some(("Solo"@, "Track"@)),
        94 => Some(("Global Mute"@, "Track"@)),
        95 => Some(("Track Level"@, "Track"@)),
        102 => Some(("LFO Speed"@, "LFO"@)),
        103 => Some(("LFO Multiplier"@, "LFO"@)),
        104 => Some(("LFO Fade In/Out"@, "LFO"@)),
        105 => Some(("LFO Destination"@, "LFO"@)),
        106 => Some(("LFO Waveform"@, "LFO"@)),
        107 => Some(("LFO Start Phase"@, "LFO"@)),
        108 => Some(("LFO Trig Mode"@, "LFO"@)),
        109 => Some(("LFO Depth"@, "LFO"@)),
        110 => Some(("Pattern Mute"@, "Track"@)),
        _ => None,
    }
}

/// The catalog as a map from controller numbers to parameters.
pub open spec fn catalog() -> Map<u8, Entry> {
    Map::new(
        |cc: u8| catalog_entry(cc) is Some,
        |cc: u8|
            Entry { name: catalog_entry(cc).unwrap().0, cc, category: catalog_entry(cc).unwrap().1 },
    )
}

/// What a table of parameters holds, as contracts see it.
pub open spec fn entries(map: Map<u8, MidiParameter>) -> Map<u8, Entry> {
    map.map_values(|p: MidiParameter| p@)
}

/// The digit for a number below ten.
pub open spec fn digit(d: nat) -> char
    recommends
        d < 10,
{
    if d == 0 {
        '0'
    } else if d == 1 {
        '1'
    } else if d == 2 {
        '2'
    } else if d == 3 {
        '3'
    } else if d == 4 {
        '4'
    } else if d == 5 {
        '5'
    } else if d == 6 {
        '6'
    } else if d == 7 {
        '7'
    } else if d == 8 {
        '8'
    } else {
        '9'
    }
}

/// A number written in decimal, without leading zeros.
pub open spec fn decimal(n: nat) -> Seq<char>
    decreases n,
{
    if n < 10 {
        seq![digit(n)]
    } else {
        decimal(n / 10) + seq![digit(n % 10)]
    }
}

/// What a controller without a name is called: `CC` and its number.
pub open spec fn plain_label(cc: u8) -> Seq<char> {
    seq!['C', 'C', ' '] + decimal(cc as nat)
}

/// The parameters of `map` whose controller number is below `bound`, in the
/// order of their numbers.
pub open spec fn entries_below(map: Map<u8, Entry>, bound: nat) -> Seq<Entry>
    decreases bound,
{
    if bound == 0 {
        Seq::empty()
    } else {
        let rest = entries_below(map, (bound - 1) as nat);
        let cc = (bound - 1) as u8;
        if bound <= 256 && map.contains_key(cc) {
            rest.push(map[cc])
        } else {
            rest
        }
    }
}

/// The controllers below `bound` whose parameter belongs to `category`, in
/// ascending order.
pub open spec fn members_below(map: Map<u8, Entry>, category: Seq<char>, bound: nat) -> Seq<u8>
    decreases bound,
{
    if bound == 0 {
        Seq::empty()
    } else {
        let rest = members_below(map, category, (bound - 1) as nat);
        let cc = (bound - 1) as u8;
        if bound <= 256 && map.contains_key(cc) && map[cc].category == category {
            rest.push(cc)
        } else {
            rest
        }
    }
}

/// The categories of the parameters whose controller number is below
/// `bound`, each once, in the order in which the controllers first come to
/// them.
pub open spec fn categories_below(map: Map<u8, Entry>, bound: nat) -> Seq<Seq<char>>
    decreases bound,
{
    if bound == 0 {
        Seq::empty()
    } else {
        let rest = categories_below(map, (bound - 1) as nat);
        let cc = (bound - 1) as u8;
        if bound <= 256 && map.contains_key(cc) && !rest.contains(map[cc].category) {
            rest.push(map[cc].category)
        } else {
            rest
        }
    }
}

fn put(map: &mut HashMap<u8, MidiParameter>, cc: u8, name: &str, category: &str)
    ensures
        entries(final(map)@) == entries(old(map)@).insert(
            cc,
            (Entry { name: name@, cc, category: category@ }),
        ),
{
    broadcast use group_hash_axioms;

    let parameter = MidiParameter {
        name: String::from_str(name),
        cc,
        category: String::from_str(category),
    };
    map.insert(cc, parameter);
    assert(entries(map@) =~= entries(old(map)@).insert(
        cc,
        Entry { name: name@, cc, category: category@ },
    ));
}

fn fill_track(map: &mut HashMap<u8, MidiParameter>)
    ensures
        entries(final(map)@) == entries(old(map)@)
            .insert(93, (Entry { name: "Solo"@, cc: 93, category: "Track"@ }))
            .insert(94, (Entry { name: "Global Mute"@, cc: 94, category: "Track"@ }))
            .insert(110, (Entry { name: "Pattern Mute"@, cc: 110, category: "Track"@ }))
            .insert(95, (Entry { name: "Track Level"@, cc: 95, category: "Track"@ })),
{
    put(map, 93, "Solo", "Track");
    put(map, 94, "Global Mute", "Track");
    put(map, 110, "Pattern Mute", "Track");
    put(map, 95, "Track Level", "Track");
}

fn fill_trig(map: &mut HashMap<u8, MidiParameter>)
    ensures
        entries(final(map)@) == entries(old(map)@)
            .insert(3, (Entry { name: "Trig Note"@, cc: 3, category: "Trig"@ }))
            .insert(4, (Entry { name: "Trig Velocity"@, cc: 4, category: "Trig"@ }))
            .insert(5, (Entry { name: "Trig Length"@, cc: 5, category: "Trig"@ }))
            .insert(13, (Entry { name: "Filter Trig"@, cc: 13, category: "Trig"@ }))
            .insert(14, (Entry { name: "LFO Trig"@, cc: 14, category: "Trig"@ })),
{
    put(map, 3, "Trig Note", "Trig");
    put(map, 4, "Trig Velocity", "Trig");
    put(map, 5, "Trig Length", "Trig");
    put(map, 13, "Filter Trig", "Trig");
    put(map, 14, "LFO Trig", "Trig");
}

fn fill_source(map: &mut HashMap<u8, MidiParameter>)
    ensures
        entries(final(map)@) == entries(old(map)@)
            .insert(16, (Entry { name: "Source Tune"@, cc: 16, category: "Source"@ }))
            .insert(17, (Entry { name: "Source Play Mode"@, cc: 17, category: "Source"@ }))
            .insert(18, (Entry { name: "Source Bit Reduction"@, cc: 18, category: "Source"@ }))
            .insert(19, (Entry { name: "Source Sample Slot"@, cc: 19, category: "Source"@ }))
            .insert(20, (Entry { name: "Source Start"@, cc: 20, category: "Source"@ }))
            .insert(21, (Entry { name: "Source Length"@, cc: 21, category: "Source"@ }))
            .insert(22, (Entry { name: "Source Loop Position"@, cc: 22, category: "Source"@ }))
            .insert(23, (Entry { name: "Source Sample Level"@, cc: 23, category: "Source"@ })),
{
    put(map, 16, "Source Tune", "Source");
    put(map, 17, "Source Play Mode", "Source");
    put(map, 18, "Source Bit Reduction", "Source");
    put(map, 19, "Source Sample Slot", "Source");
    put(map, 20, "Source Start", "Source");
    put(map, 21, "Source Length", "Source");
    put(map, 22, "Source Loop Position", "Source");
    put(map, 23, "Source Sample Level", "Source");
}

fn fill_filter(map: &mut HashMap<u8, MidiParameter>)
    ensures
        entries(final(map)@) == entries(old(map)@)
            .insert(74, (Entry { name: "Filter Frequency"@, cc: 74, category: "Filter"@ }))
            .insert(75, (Entry { name: "Resonance"@, cc: 75, category: "Filter"@ }))
            .insert(76, (Entry { name: "Filter Type"@, cc: 76, category: "Filter"@ }))
            .insert(70, (Entry { name: "Filter Attack Time"@, cc: 70, category: "Filter"@ }))
            .insert(71, (Entry { name: "Filter Decay Time"@, cc: 71, category: "Filter"@ }))
            .insert(72, (Entry { name: "Filter Sustain Level"@, cc: 72, category: "Filter"@ }))
            .insert(73, (Entry { name: "Filter Release Time"@, cc: 73, category: "Filter"@ }))
            .insert(77, (Entry { name: "Filter Env Depth"@, cc: 77, category: "Filter"@ })),
{
    put(map, 74, "Filter Frequency", "Filter");
    put(map, 75, "Resonance", "Filter");
    put(map, 76, "Filter Type", "Filter");
    put(map, 70, "Filter Attack Time", "Filter");
    put(map, 71, "Filter Decay Time", "Filter");
    put(map, 72, "Filter Sustain Level", "Filter");
    put(map, 73, "Filter Release Time", "Filter");
    put(map, 77, "Filter Env Depth", "Filter");
}

fn fill_amp(map: &mut HashMap<u8, MidiParameter>)
    ensures
        entries(final(map)@) == entries(old(map)@)
            .insert(78, (Entry { name: "Amp Attack Time"@, cc: 78, category: "Amp"@ }))
            .insert(79, (Entry { name: "Amp Hold Time"@, cc: 79, category: "Amp"@ }))
            .insert(80, (Entry { name: "Amp Decay Time"@, cc: 80, category: "Amp"@ }))
            .insert(81, (Entry { name: "Amp Overdrive"@, cc: 81, category: "Amp"@ }))
            .insert(82, (Entry { name: "Amp Delay Send"@, cc: 82, category: "Amp"@ }))
            .insert(83, (Entry { name: "Amp Reverb Send"@, cc: 83, category: "Amp"@ }))
            .insert(10, (Entry { name: "Amp Pan"@, cc: 10, category: "Amp"@ }))
            .insert(7, (Entry { name: "Amp Volume"@, cc: 7, category: "Amp"@ })),
{
    put(map, 78, "Amp Attack Time", "Amp");
    put(map, 79, "Amp Hold Time", "Amp");
    put(map, 80, "Amp Decay Time", "Amp");
    put(map, 81, "Amp Overdrive", "Amp");
    put(map, 82, "Amp Delay Send", "Amp");
    put(map, 83, "Amp Reverb Send", "Amp");
    put(map, 10, "Amp Pan", "Amp");
    put(map, 7, "Amp Volume", "Amp");
}

fn fill_lfo(map: &mut HashMap<u8, MidiParameter>)
    ensures
        entries(final(map)@) == entries(old(map)@)
            .insert(102, (Entry { name: "LFO Speed"@, cc: 102, category: "LFO"@ }))
            .insert(103, (Entry { name: "LFO Multiplier"@, cc: 103, category: "LFO"@ }))
            .insert(104, (Entry { name: "LFO Fade In/Out"@, cc: 104, category: "LFO"@ }))
            .insert(105, (Entry { name: "LFO Destination"@, cc: 105, category: "LFO"@ }))
            .insert(106, (Entry { name: "LFO Waveform"@, cc: 106, category: "LFO"@ }))
            .insert(107, (Entry { name: "LFO Start Phase"@, cc: 107, category: "LFO"@ }))
            .insert(108, (Entry { name: "LFO Trig Mode"@, cc: 108, category: "LFO"@ }))
            .insert(109, (Entry { name: "LFO Depth"@, cc: 109, category: "LFO"@ })),
{
    put(map, 102, "LFO Speed", "LFO");
    put(map, 103, "LFO Multiplier", "LFO");
    put(map, 104, "LFO Fade In/Out", "LFO");
    put(map, 105, "LFO Destination", "LFO");
    put(map, 106, "LFO Waveform", "LFO");
    put(map, 107, "LFO Start Phase", "LFO");
    put(map, 108, "LFO Trig Mode", "LFO");
    put(map, 109, "LFO Depth", "LFO");
}

fn fill_fx_delay(map: &mut HashMap<u8, MidiParameter>)
    ensures
        entries(final(map)@) == entries(old(map)@)
            .insert(85, (Entry { name: "FX Delay Time"@, cc: 85, category: "FX Delay"@ }))
            .insert(86, (Entry { name: "FX Pingpong"@, cc: 86, category: "FX Delay"@ }))
            .insert(87, (Entry { name: "FX Stereo Width"@, cc: 87, category: "FX Delay"@ }))
            .insert(88, (Entry { name: "FX Feedback"@, cc: 88, category: "FX Delay"@ }))
            .insert(89, (Entry { name: "FX Highpass Filter"@, cc: 89, category: "FX Delay"@ }))
            .insert(90, (Entry { name: "FX Lowpass Filter"@, cc: 90, category: "FX Delay"@ }))
            .insert(91, (Entry { name: "FX Reverb Send"@, cc: 91, category: "FX Delay"@ }))
            .insert(92, (Entry { name: "FX Mix Volume"@, cc: 92, category: "FX Delay"@ })),
{
    put(map, 85, "FX Delay Time", "FX Delay");
    put(map, 86, "FX Pingpong", "FX Delay");
    put(map, 87, "FX Stereo Width", "FX Delay");
    put(map, 88, "FX Feedback", "FX Delay");
    put(map, 89, "FX Highpass Filter", "FX Delay");
    put(map, 90, "FX Lowpass Filter", "FX Delay");
    put(map, 91, "FX Reverb Send", "FX Delay");
    put(map, 92, "FX Mix Volume", "FX Delay");
}

fn fill_fx_reverb(map: &mut HashMap<u8, MidiParameter>)
    ensures
        entries(final(map)@) == entries(old(map)@)
            .insert(24, (Entry { name: "FX Reverb Predelay"@, cc: 24, category: "FX Reverb"@ }))
            .insert(25, (Entry { name: "FX Reverb Decay Time"@, cc: 25, category: "FX Reverb"@ }))
            .insert(2, (Entry { name: "FX Reverb Shelving Freq"@, cc: 2, category: "FX Reverb"@ }))
            .insert(27, (Entry { name: "FX Reverb Shelving Gain"@, cc: 27, category: "FX Reverb"@ }))
            .insert(28, (Entry { name: "FX Reverb Highpass Filter"@, cc: 28, category: "FX Reverb"@ }))
            .insert(29, (Entry { name: "FX Reverb Lowpass Filter"@, cc: 29, category: "FX Reverb"@ }))
            .insert(31, (Entry { name: "FX Reverb Mix Volume"@, cc: 31, category: "FX Reverb"@ })),
{
    put(map, 24, "FX Reverb Predelay", "FX Reverb");
    put(map, 25, "FX Reverb Decay Time", "FX Reverb");
    put(map, 2, "FX Reverb Shelving Freq", "FX Reverb");
    put(map, 27, "FX Reverb Shelving Gain", "FX Reverb");
    put(map, 28, "FX Reverb Highpass Filter", "FX Reverb");
    put(map, 29, "FX Reverb Lowpass Filter", "FX Reverb");
    put(map, 31, "FX Reverb Mix Volume", "FX Reverb");
}

fn digit_str(d: u8) -> (s: &'static str)
    requires
        d < 10,
    ensures
        s@ == seq![digit(d as nat)],
{
    proof {
        reveal_strlit("0");
        reveal_strlit("1");
        reveal_strlit("2");
        reveal_strlit("3");
        reveal_strlit("4");
        reveal_strlit("5");
        reveal_strlit("6");
        reveal_strlit("7");
        reveal_strlit("8");
        reveal_strlit("9");
    }
    let s: &'static str = match d {
        0 => "0",
        1 => "1",
        2 => "2",
        3 => "3",
        4 => "4",
        5 => "5",
        6 => "6",
        7 => "7",
        8 => "8",
        _ => "9",
    };
    assert(s@ =~= seq![digit(d as nat)]);
    s
}

fn label_of(cc: u8) -> (label: String)
    ensures
        label@ == plain_label(cc),
{
    proof {
        reveal_strlit("CC ");
        reveal_with_fuel(decimal, 3);
    }
    let mut label = String::from_str("CC ");
    assert(label@ =~= seq!['C', 'C', ' ']);
    if cc >= 100 {
        label.append(digit_str(cc / 100));
    }
    if cc >= 10 {
        label.append(digit_str((cc / 10) % 10));
    }
    label.append(digit_str(cc % 10));
    assert(label@ =~= plain_label(cc));
    label
}

fn copy_of(parameter: &MidiParameter) -> (copy: MidiParameter)
    ensures
        copy@ == parameter@,
{
    MidiParameter {
        name: parameter.name.clone(),
        cc: parameter.cc,
        category: parameter.category.clone(),
    }
}

impl View for MidiMap {
    type V = Map<u8, Entry>;

    closed spec fn view(&self) -> Map<u8, Entry> {
        entries(self.params_by_cc@)
    }
}

impl MidiMap {
    #[verifier::type_invariant]
    spec fn inv(self) -> bool {
        entries(self.params_by_cc@) == catalog()
    }

    /// Builds the catalog.
    pub fn new() -> (map: MidiMap)
        ensures
            map@ == catalog(),
    {
        let mut params_by_cc: HashMap<u8, MidiParameter> = HashMap::new();
        assert(entries(params_by_cc@) =~= Map::empty());
        fill_track(&mut params_by_cc);
        fill_trig(&mut params_by_cc);
        fill_source(&mut params_by_cc);
        fill_filter(&mut params_by_cc);
        fill_amp(&mut params_by_cc);
        fill_lfo(&mut params_by_cc);
        fill_fx_delay(&mut params_by_cc);
        fill_fx_reverb(&mut params_by_cc);
        assert(entries(params_by_cc@) =~= catalog());
        MidiMap { params_by_cc }
    }

    /// The parameter that controller `cc` sets, if the instrument has one for
    /// it.
    pub fn get_parameter(&self, cc: u8) -> (parameter: Option<MidiParameter>)
        ensures
            self@ == catalog(),
            self@.contains_key(cc) <==> parameter is Some,
            parameter matches Some(p) ==> p@ == self@[cc],
    {
        broadcast use group_hash_axioms;

        proof {
            use_type_invariant(self);
        }
        match self.params_by_cc.get(&cc) {
            Some(p) => Some(copy_of(p)),
            None => None,
        }
    }

    /// What to call controller `cc`: the name of its parameter, or `CC` and
    /// the number where it has none.
    pub fn get_name(&self, cc: u8) -> (name: String)
        ensures
            self@ == catalog(),
            name@ == (if self@.contains_key(cc) {
                self@[cc].name
            } else {
                plain_label(cc)
            }),
    {
        broadcast use group_hash_axioms;

        proof {
            use_type_invariant(self);
        }
        match self.params_by_cc.get(&cc) {
            Some(p) => p.name.clone(),
            None => label_of(cc),
        }
    }

    /// Every parameter of the catalog, in the order of the controller
    /// numbers.
    pub fn get_all_parameters(&self) -> (parameters: Vec<MidiParameter>)
        ensures
            self@ == catalog(),
            parameters@.map_values(|p: MidiParameter| p@) == entries_below(self@, 256),
    {
        broadcast use group_hash_axioms;

        proof {
            use_type_invariant(self);
        }
        let mut parameters: Vec<MidiParameter> = Vec::new();
        let mut next: u16 = 0;
        while next < 256
            invariant
                next <= 256,
                parameters@.map_values(|p: MidiParameter| p@) == entries_below(
                    entries(self.params_by_cc@),
                    next as nat,
                ),
            decreases 256 - next,
        {
            let cc: u8 = next as u8;
            let ghost before = parameters@;
            match self.params_by_cc.get(&cc) {
                Some(p) => {
                    parameters.push(copy_of(p));
                    assert(parameters@.map_values(|p: MidiParameter| p@) =~= before.map_values(
                        |p: MidiParameter| p@,
                    ).push(entries(self.params_by_cc@)[cc]));
                },
                None => {},
            }
            next = next + 1;
        }
        parameters
    }

    /// The categories of the catalog, each once, in the order in which the
    /// controller numbers first come to them.
    pub fn get_categories(&self) -> (categories: Vec<String>)
        ensures
            self@ == catalog(),
            texts(categories@) == categories_below(self@, 256),
    {
        broadcast use group_hash_axioms;

        proof {
            use_type_invariant(self);
        }
        let mut categories: Vec<String> = Vec::new();
        let mut next: u16 = 0;
        assert(texts(categories@) =~= Seq::<Seq<char>>::empty());
        while next < 256
            invariant
                next <= 256,
                texts(categories@) == categories_below(entries(self.params_by_cc@), next as nat),
            decreases 256 - next,
        {
            let cc: u8 = next as u8;
            let ghost before = categories@;
            match self.params_by_cc.get(&cc) {
                Some(p) => {
                    if !contains_text(&categories, p.category.as_str()) {
                        categories.push(p.category.clone());
                        assert(texts(categories@) =~= texts(before).push(p.category@));
                    }
                },
                None => {},
            }
            next = next + 1;
        }
        categories
    }

    /// The controllers whose parameter belongs to `category`, in ascending
    /// order.
    pub fn get_category_members(&self, category: &str) -> (members: Vec<u8>)
        ensures
            self@ == catalog(),
            members@ == members_below(self@, category@, 256),
    {
        broadcast use group_hash_axioms;

        proof {
            use_type_invariant(self);
        }
        let mut members: Vec<u8> = Vec::new();
        let mut next: u16 = 0;
        while next < 256
            invariant
                next <= 256,
                members@ == members_below(entries(self.params_by_cc@), category@, next as nat),
            decreases 256 - next,
        {
            let cc: u8 = next as u8;
            match self.params_by_cc.get(&cc) {
                Some(p) => {
                    if same_text(p.category.as_str(), category) {
                        members.push(cc);
                    }
                },
                None => {},
            }
            next = next + 1;
        }
        members
    }
}

/// Each parameter of the catalog is filed under its own controller number.
pub proof fn lemma_catalog_is_keyed()
    ensures
        forall|cc: u8| catalog().contains_key(cc) ==> (#[trigger] catalog()[cc]).cc == cc,
{
}

/// The listing of a map whose parameters are filed under their own numbers is
/// in ascending order of these numbers, without repetition, and holds the
/// parameters of the map below the bound and no others.
pub proof fn lemma_listing_is_sorted(map: Map<u8, Entry>, bound: nat)
    requires
        forall|cc: u8| map.contains_key(cc) ==> (#[trigger] map[cc]).cc == cc,
    ensures
        forall|i: int, j: int|
            0 <= i < j < entries_below(map, bound).len() ==> (#[trigger] entries_below(
                map,
                bound,
            )[i]).cc < (#[trigger] entries_below(map, bound)[j]).cc,
        forall|i: int|
            0 <= i < entries_below(map, bound).len() ==> ({
                let entry = #[trigger] entries_below(map, bound)[i];
                entry.cc < bound && map.contains_key(entry.cc) && map[entry.cc] == entry
            }),
        forall|cc: u8|
            cc < bound && map.contains_key(cc) ==> entries_below(map, bound).contains(
                #[trigger] map[cc],
            ),
    decreases bound,
{
    if bound > 0 {
        let rest = entries_below(map, (bound - 1) as nat);
        let all = entries_below(map, bound);
        let last = (bound - 1) as u8;
        lemma_listing_is_sorted(map, (bound - 1) as nat);
        assert forall|cc: u8| cc < bound && map.contains_key(cc) implies all.contains(
            #[trigger] map[cc],
        ) by {
            if cc < bound - 1 {
                let i = choose|i: int| 0 <= i < rest.len() && rest[i] == map[cc];
                assert(all[i] == map[cc]);
            } else {
                assert(cc == last);
                assert(all[rest.len() as int] == map[cc]);
            }
        }
    }
}

/// The members of a category are in ascending order, and a controller is
/// among them if and only if it is below the bound and its parameter belongs
/// to the category.
pub proof fn lemma_members_are_sorted(map: Map<u8, Entry>, category: Seq<char>, bound: nat)
    ensures
        forall|i: int, j: int|
            0 <= i < j < members_below(map, category, bound).len() ==> members_below(
                map,
                category,
                bound,
            )[i] < members_below(map, category, bound)[j],
        forall|cc: u8|
            #![trigger members_below(map, category, bound).contains(cc)]
            #![trigger map.contains_key(cc)]
            members_below(map, category, bound).contains(cc) <==> cc < bound && map.contains_key(
                cc,
            ) && map[cc].category == category,
    decreases bound,
{
    if bound > 0 {
        let rest = members_below(map, category, (bound - 1) as nat);
        let all = members_below(map, category, bound);
        let last = (bound - 1) as u8;
        lemma_members_are_sorted(map, category, (bound - 1) as nat);
        assert forall|cc: u8| all.contains(cc) implies cc < bound && map.contains_key(cc)
            && map[cc].category == category by {
            let i = choose|i: int| 0 <= i < all.len() && all[i] == cc;
            if i < rest.len() {
                assert(rest[i] == cc);
                assert(rest.contains(cc));
            }
        }
        assert forall|cc: u8|
            cc < bound && map.contains_key(cc) && map[cc].category == category implies all.contains(
            cc,
        ) by {
            if cc < bound - 1 {
                assert(rest.contains(cc));
                let i = choose|i: int| 0 <= i < rest.len() && rest[i] == cc;
                assert(all[i] == cc);
            } else {
                assert(all[rest.len() as int] == cc);
            }
        }
        assert forall|i: int, j: int| 0 <= i < j < all.len() implies all[i] < all[j] by {
            if j == rest.len() {
                assert(rest.contains(rest[i]));
            }
        }
    }
}

/// No category is listed twice, the category of every parameter below the
/// bound is listed, and nothing else is.
pub proof fn lemma_categories_are_distinct(map: Map<u8, Entry>, bound: nat)
    ensures
        categories_below(map, bound).no_duplicates(),
        forall|category: Seq<char>|
            #![trigger categories_below(map, bound).contains(category)]
            categories_below(map, bound).contains(category) <==> exists|cc: u8|
                cc < bound && map.contains_key(cc) && (#[trigger] map[cc]).category == category,
    decreases bound,
{
    if bound > 0 {
        let rest = categories_below(map, (bound - 1) as nat);
        let all = categories_below(map, bound);
        let last = (bound - 1) as u8;
        lemma_categories_are_distinct(map, (bound - 1) as nat);
        assert forall|category: Seq<char>| all.contains(category) implies exists|cc: u8|
            cc < bound && map.contains_key(cc) && (#[trigger] map[cc]).category == category by {
            let i = choose|i: int| 0 <= i < all.len() && all[i] == category;
            if i < rest.len() {
                assert(rest[i] == category);
                assert(rest.contains(category));
                let cc = choose|cc: u8|
                    cc < bound - 1 && map.contains_key(cc) && (#[trigger] map[cc]).category
                        == category;
                assert(cc < bound && map.contains_key(cc) && map[cc].category == category);
            } else {
                assert(last < bound && map.contains_key(last) && map[last].category == category);
            }
        }
        assert forall|category: Seq<char>|
            (exists|cc: u8|
                cc < bound && map.contains_key(cc) && (#[trigger] map[cc]).category
                    == category) implies all.contains(category) by {
            let cc = choose|cc: u8|
                cc < bound && map.contains_key(cc) && (#[trigger] map[cc]).category == category;
            if cc < bound - 1 {
                assert(rest.contains(category));
                let i = choose|i: int| 0 <= i < rest.len() && rest[i] == category;
                assert(all[i] == category);
            } else if rest.contains(category) {
                let i = choose|i: int| 0 <= i < rest.len() && rest[i] == category;
                assert(all[i] == category);
            } else {
                assert(all[rest.len() as int] == category);
            }
        }
        assert forall|i: int, j: int| 0 <= i < all.len() && 0 <= j < all.len() && i != j implies all[i]
            != all[j] by {
            if i == rest.len() && j < rest.len() {
                assert(rest.contains(rest[j]));
            }
            if j == rest.len() && i < rest.len() {
                assert(rest.contains(rest[i]));
            }
        }
    }
}

} // verus!
