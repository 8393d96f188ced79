use orbit_sim::save_format::{
    parse_save_tokens, render_save, FloatReading, LoadError, PlanetRecord, SaveRecord, Token,
};
use orbit_sim::text::split_whitespace;

fn read(word: &str) -> FloatReading {
    match word.parse::<f64>() {
        Ok(v) => FloatReading::Number { at_most_zero: v <= 0.0, shown: v.to_string() },
        Err(e) => FloatReading::Invalid { reason: e.to_string() },
    }
}

fn load(text: &str) -> Result<SaveRecord, LoadError> {
    let toks: Vec<Token> = split_whitespace(text)
        .into_iter()
        .map(|w| Token { reading: read(&w), text: w })
        .collect();
    parse_save_tokens(&toks)
}

fn load_message(text: &str) -> String {
    match load(text) {
        Ok(_) => panic!("expected a load failure"),
        Err(e) => e.message(),
    }
}

fn planet(px: f64, py: f64, vx: f64, vy: f64, mass: f64, locked: bool) -> PlanetRecord {
    PlanetRecord {
        pos_x: px.to_string(),
        pos_y: py.to_string(),
        vel_x: vx.to_string(),
        vel_y: vy.to_string(),
        mass: mass.to_string(),
        locked,
    }
}

#[test]
fn render_writes_one_line_per_planet() {
    let rec = SaveRecord {
        focus_x: (-12.5f64).to_string(),
        focus_y: 3.0f64.to_string(),
        zoom: 1.5f64.to_string(),
        tick_rate: 4,
        planets: vec![planet(1.0, 2.0, 0.5, -0.25, 960.0, false), planet(0.0, 0.0, 0.0, 0.0, 34000.0, true)],
    };
    assert_eq!(render_save(&rec), "-12.5 3 1.5\n4 2\n1 2 0.5 -0.25 960 0\n0 0 0 0 34000 1\n");
}

#[test]
fn load_reads_back_what_was_saved() {
    let rec = SaveRecord {
        focus_x: 0.1f64.to_string(),
        focus_y: 1e-7f64.to_string(),
        zoom: 2.0f64.to_string(),
        tick_rate: 1,
        planets: vec![
            planet(279.0, 192.0, 0.0, 0.0, 3.4e4, true),
            planet(102.0, 206.0, 0.681, -14.2, 960.0, false),
        ],
    };
    let back = load(&render_save(&rec)).ok().expect("saved text loads");
    assert_eq!(back.focus_x, rec.focus_x);
    assert_eq!(back.focus_y, rec.focus_y);
    assert_eq!(back.zoom, rec.zoom);
    assert_eq!(back.tick_rate, 1);
    assert_eq!(back.planets.len(), 2);
    for (a, b) in back.planets.iter().zip(rec.planets.iter()) {
        assert_eq!(a.pos_x, b.pos_x);
        assert_eq!(a.pos_y, b.pos_y);
        assert_eq!(a.vel_x, b.vel_x);
        assert_eq!(a.vel_y, b.vel_y);
        assert_eq!(a.mass, b.mass);
        assert_eq!(a.locked, b.locked);
    }
}

#[test]
fn layout_and_extra_words_do_not_matter() {
    let rec = load("  0 0\t1\n\n  3   1   5 6 7 8 9 12 trailing words").ok().expect("loads");
    assert_eq!(rec.tick_rate, 3);
    assert_eq!(rec.planets.len(), 1);
    assert_eq!(rec.planets[0].mass, "9");
    assert!(rec.planets[0].locked);
    assert_eq!(rec.planets[0].vel_y, "8");
}

#[test]
fn lock_flag_zero_means_unlocked() {
    let rec = load("0 0 1 1 2 0 0 0 0 1 0 0 0 0 0 1 +007").ok().expect("loads");
    assert!(!rec.planets[0].locked);
    assert!(rec.planets[1].locked);
}

#[test]
fn running_out_of_numbers_is_reported() {
    assert_eq!(load_message(""), "reached EOF early - expected another number");
    assert_eq!(load_message("0 0 1 1 2 0 0 0 0 1 0"), "reached EOF early - expected another number");
}

#[test]
fn a_word_that_is_not_a_real_number_is_reported() {
    assert_eq!(load_message("0 north 1 1 0"), "invalid float literal (north)");
}

#[test]
fn a_bad_integer_is_reported_with_std_reason() {
    assert_eq!(load_message("0 0 1 1.5 0"), "invalid digit found in string (1.5)");
    assert_eq!(load_message("0 0 1 1 -2"), "invalid digit found in string (-2)");
    assert_eq!(
        load_message("0 0 1 1 99999999999999999999999"),
        "number too large to fit in target type (99999999999999999999999)"
    );
}

#[test]
fn non_positive_zoom_is_refused_before_later_numbers() {
    assert_eq!(load_message("0 0 -0.5 x"), "viewport zoom value cannot be zero or negative (-0.5)");
    assert_eq!(load_message("0 0 0 1 0"), "viewport zoom value cannot be zero or negative (0)");
}

#[test]
fn non_positive_mass_is_refused_after_its_lock_flag() {
    assert_eq!(load_message("0 0 1 1 1 0 0 0 0 -3 1"), "planet mass cannot be zero or negative (-3)");
    assert_eq!(load_message("0 0 1 1 1 0 0 0 0 0 z"), "invalid digit found in string (z)");
}

#[test]
fn count_with_plus_sign_is_accepted() {
    let rec = load("0 0 1 +2 +0").ok().expect("loads");
    assert_eq!(rec.tick_rate, 2);
    assert!(rec.planets.is_empty());
}

#[test]
fn error_variants_carry_their_words() {
    match load("0 0 1 1 1 0 0 0 0 0 1") {
        Err(LoadError::NonPositiveMass { shown }) => assert_eq!(shown, "0"),
        _ => panic!("expected a mass failure"),
    }
    match load("0 0 1 q") {
        Err(LoadError::BadNumber { token, reason }) => {
            assert_eq!(token, "q");
            assert_eq!(reason, "invalid digit found in string");
        }
        _ => panic!("expected a number failure"),
    }
    assert!(matches!(load("0 0"), Err(LoadError::UnexpectedEnd)));
    assert!(matches!(load("0 0 0"), Err(LoadError::NonPositiveZoom { .. })));
}

#[test]
fn a_nan_zoom_or_mass_is_not_refused() {
    let rec = load("0 0 NaN 1 1 0 0 0 0 nan 0").ok().expect("loads");
    assert_eq!(rec.zoom, "NaN");
    assert_eq!(rec.planets[0].mass, "nan");
}

#[test]
fn saved_reals_read_back_to_the_same_values() {
    let values = [0.1f64, -2.5e-300, 1e300, 123456.789, -0.0, 4.0 / 3.0, f64::MIN_POSITIVE];
    let rec = SaveRecord {
        focus_x: values[0].to_string(),
        focus_y: values[1].to_string(),
        zoom: values[3].to_string(),
        tick_rate: 7,
        planets: vec![planet(values[2], values[4], values[5], values[6], values[3], true)],
    };
    let back = load(&render_save(&rec)).ok().expect("loads");
    let num = |s: &str| s.parse::<f64>().unwrap();
    assert_eq!(num(&back.focus_x), values[0]);
    assert_eq!(num(&back.focus_y), values[1]);
    assert_eq!(num(&back.zoom), values[3]);
    let p = &back.planets[0];
    assert_eq!(num(&p.pos_x), values[2]);
    assert_eq!(num(&p.pos_y).to_bits(), values[4].to_bits());
    assert_eq!(num(&p.vel_x), values[5]);
    assert_eq!(num(&p.vel_y), values[6]);
    assert_eq!(num(&p.mass), values[3]);
    assert!(p.locked);
}
