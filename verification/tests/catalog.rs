use midi_ctrl::text::{contains_text, same_text};
use midi_ctrl::{MidiMap, MidiParameter};

#[test]
fn known_controllers_have_their_names() {
    let map = MidiMap::new();
    assert_eq!(map.get_name(74), "Filter Frequency");
    assert_eq!(map.get_name(93), "Solo");
    assert_eq!(map.get_name(7), "Amp Volume");
    assert_eq!(map.get_name(2), "FX Reverb Shelving Freq");
    assert_eq!(map.get_name(110), "Pattern Mute");
    assert_eq!(map.get_name(104), "LFO Fade In/Out");
}

#[test]
fn unknown_controllers_are_called_by_their_number() {
    let map = MidiMap::new();
    assert_eq!(map.get_name(0), "CC 0");
    assert_eq!(map.get_name(1), "CC 1");
    assert_eq!(map.get_name(9), "CC 9");
    assert_eq!(map.get_name(11), "CC 11");
    assert_eq!(map.get_name(26), "CC 26");
    assert_eq!(map.get_name(100), "CC 100");
    assert_eq!(map.get_name(111), "CC 111");
    assert_eq!(map.get_name(127), "CC 127");
    assert_eq!(map.get_name(200), "CC 200");
    assert_eq!(map.get_name(255), "CC 255");
}

#[test]
fn every_unknown_controller_is_labelled_in_decimal() {
    let map = MidiMap::new();
    for cc in 0u8..=255 {
        if map.get_parameter(cc).is_none() {
            assert_eq!(map.get_name(cc), format!("CC {}", cc));
        }
    }
}

#[test]
fn parameters_carry_number_and_category() {
    let map = MidiMap::new();
    let p: MidiParameter = map.get_parameter(75).unwrap();
    assert_eq!((p.name.as_str(), p.cc, p.category.as_str()), ("Resonance", 75, "Filter"));
    let p: MidiParameter = map.get_parameter(10).unwrap();
    assert_eq!((p.name.as_str(), p.cc, p.category.as_str()), ("Amp Pan", 10, "Amp"));
    let p: MidiParameter = map.get_parameter(85).unwrap();
    assert_eq!((p.name.as_str(), p.cc, p.category.as_str()), ("FX Delay Time", 85, "FX Delay"));
    assert!(map.get_parameter(0).is_none());
    assert!(map.get_parameter(26).is_none());
    assert!(map.get_parameter(128).is_none());
}

#[test]
fn all_parameters_are_listed_in_order() {
    let map = MidiMap::new();
    let all: Vec<MidiParameter> = map.get_all_parameters();
    assert_eq!(all.len(), 56);
    for pair in all.windows(2) {
        assert!(pair[0].cc < pair[1].cc);
    }
    assert_eq!(all[0].cc, 2);
    assert_eq!(all[0].name, "FX Reverb Shelving Freq");
    assert_eq!(all[55].cc, 110);
    for p in &all {
        let q: MidiParameter = map.get_parameter(p.cc).unwrap();
        assert_eq!((&q.name, q.cc, &q.category), (&p.name, p.cc, &p.category));
        assert_eq!(map.get_name(p.cc), p.name);
    }
    let listed: usize = (0u8..=255).filter(|cc| map.get_parameter(*cc).is_some()).count();
    assert_eq!(listed, 56);
}

#[test]
fn categories_have_their_members() {
    let map = MidiMap::new();
    let count = |category: &str| -> usize {
        map.get_all_parameters().iter().filter(|p| p.category == category).count()
    };
    assert_eq!(count("Track"), 4);
    assert_eq!(count("Trig"), 5);
    assert_eq!(count("Source"), 8);
    assert_eq!(count("Filter"), 8);
    assert_eq!(count("Amp"), 8);
    assert_eq!(count("LFO"), 8);
    assert_eq!(count("FX Delay"), 8);
    assert_eq!(count("FX Reverb"), 7);
}

#[test]
fn categories_come_in_the_order_of_the_controllers() {
    let map = MidiMap::new();
    assert_eq!(
        map.get_categories(),
        vec!["FX Reverb", "Trig", "Amp", "Source", "Filter", "FX Delay", "Track", "LFO"]
    );
}

#[test]
fn members_of_a_category_ascend() {
    let map = MidiMap::new();
    assert_eq!(map.get_category_members("Amp"), vec![7, 10, 78, 79, 80, 81, 82, 83]);
    assert_eq!(map.get_category_members("Track"), vec![93, 94, 95, 110]);
    assert_eq!(map.get_category_members("FX Reverb"), vec![2, 24, 25, 27, 28, 29, 31]);
    assert_eq!(map.get_category_members("amp"), Vec::<u8>::new());
    assert_eq!(map.get_category_members(""), Vec::<u8>::new());
    let mut total: usize = 0;
    for category in map.get_categories() {
        for cc in map.get_category_members(&category) {
            assert_eq!(map.get_parameter(cc).unwrap().category, category);
            total += 1;
        }
    }
    assert_eq!(total, 56);
}

#[test]
fn texts_are_found_in_a_list() {
    let list: Vec<String> = vec!["Amp".to_string(), "LFO".to_string()];
    assert!(contains_text(&list, "LFO"));
    assert!(contains_text(&list, "Amp"));
    assert!(!contains_text(&list, "lfo"));
    assert!(!contains_text(&list, ""));
    assert!(!contains_text(&Vec::new(), "Amp"));
}

#[test]
fn texts_are_compared_character_by_character() {
    assert!(same_text("", ""));
    assert!(same_text("noteon", "noteon"));
    assert!(!same_text("noteon", "noteoff"));
    assert!(!same_text("note", "noteon"));
    assert!(!same_text("é", "e"));
    assert!(same_text("é", "é"));
}
