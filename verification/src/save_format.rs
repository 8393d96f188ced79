//! The text format of a saved simulation.
//!
//! A save is a sequence of white-space separated numbers: the viewport focus
//! (x, y) and zoom, the tick rate, the number of planets, then for each planet
//! its position (x, y), velocity (x, y), mass and a lock flag (an integer,
//! non-zero meaning locked).  Real numbers are kept here as the text of their
//! token; what a real number's token is worth is read by the caller and handed
//! in as a `FloatReading`.
use vstd::prelude::*;
use vstd::string::*;
use crate::text::{self, parse_usize, push_char, push_decimal};

verus! {

/// What a token is worth when read as a real number.
pub enum FloatReading {
    /// Not a real number; the reader's explanation.
    Invalid { reason: String },
    /// A real number: whether it is zero or less (a NaN is not), and
    /// how it is shown.
    Number { at_most_zero: bool, shown: String },
}

/// The mathematical content of a `FloatReading`.
pub enum FloatReadingView {
    Invalid { reason: Seq<char> },
    Number { at_most_zero: bool, shown: Seq<char> },
}

impl View for FloatReading {
    type V = FloatReadingView;

    open spec fn view(&self) -> FloatReadingView {
        match self {
            FloatReading::Invalid { reason } => FloatReadingView::Invalid { reason: reason@ },
            FloatReading::Number { at_most_zero, shown } => FloatReadingView::Number {
                at_most_zero: *at_most_zero,
                shown: shown@,
            },
        }
    }
}

/// One word of a save, with what it is worth as a real number.
pub struct Token {
    pub text: String,
    pub reading: FloatReading,
}

pub struct TokenView {
    pub text: Seq<char>,
    pub reading: FloatReadingView,
}

impl View for Token {
    type V = TokenView;

    open spec fn view(&self) -> TokenView {
        TokenView { text: self.text@, reading: self.reading@ }
    }
}

/// The views of a list of tokens.
pub open spec fn token_views(toks: Seq<Token>) -> Seq<TokenView> {
    toks.map_values(|t: Token| t@)
}

/// One planet of a save; real numbers are given by their text.
pub struct PlanetRecord {
    pub pos_x: String,
    pub pos_y: String,
    pub vel_x: String,
    pub vel_y: String,
    pub mass: String,
    pub locked: bool,
}

pub struct PlanetText {
    pub pos_x: Seq<char>,
    pub pos_y: Seq<char>,
    pub vel_x: Seq<char>,
    pub vel_y: Seq<char>,
    pub mass: Seq<char>,
    pub locked: bool,
}

impl View for PlanetRecord {
    type V = PlanetText;

    open spec fn view(&self) -> PlanetText {
        PlanetText {
            pos_x: self.pos_x@,
            pos_y: self.pos_y@,
            vel_x: self.vel_x@,
            vel_y: self.vel_y@,
            mass: self.mass@,
            locked: self.locked,
        }
    }
}

/// A whole save; real numbers are given by their text.
pub struct SaveRecord {
    pub focus_x: String,
    pub focus_y: String,
    pub zoom: String,
    pub tick_rate: usize,
    pub planets: Vec<PlanetRecord>,
}

pub struct SaveText {
    pub focus_x: Seq<char>,
    pub focus_y: Seq<char>,
    pub zoom: Seq<char>,
    pub tick_rate: nat,
    pub planets: Seq<PlanetText>,
}

impl View for SaveRecord {
    type V = SaveText;

    open spec fn view(&self) -> SaveText {
        SaveText {
            focus_x: self.focus_x@,
            focus_y: self.focus_y@,
            zoom: self.zoom@,
            tick_rate: self.tick_rate as nat,
            planets: self.planets@.map_values(|p: PlanetRecord| p@),
        }
    }
}

/// Why a save could not be read.
pub enum LoadError {
    /// The text ended where another number was expected.
    UnexpectedEnd,
    /// A token is not a number of the kind expected there.
    BadNumber { token: String, reason: String },
    /// The viewport zoom is zero or negative.
    NonPositiveZoom { shown: String },
    /// A planet's mass is zero or negative.
    NonPositiveMass { shown: String },
}

pub enum LoadFailure {
    UnexpectedEnd,
    BadNumber { token: Seq<char>, reason: Seq<char> },
    NonPositiveZoom { shown: Seq<char> },
    NonPositiveMass { shown: Seq<char> },
}

impl View for LoadError {
    type V = LoadFailure;

    open spec fn view(&self) -> LoadFailure {
        match self {
            LoadError::UnexpectedEnd => LoadFailure::UnexpectedEnd,
            LoadError::BadNumber { token, reason } => LoadFailure::BadNumber {
                token: token@,
                reason: reason@,
            },
            LoadError::NonPositiveZoom { shown } => LoadFailure::NonPositiveZoom { shown: shown@ },
            LoadError::NonPositiveMass { shown } => LoadFailure::NonPositiveMass { shown: shown@ },
        }
    }
}

/// The message shown to the user for a failed load.
pub open spec fn failure_message(e: LoadFailure) -> Seq<char> {
    match e {
        LoadFailure::UnexpectedEnd => "reached EOF early - expected another number"@,
        LoadFailure::BadNumber { token, reason } => reason + " ("@ + token + ")"@,
        LoadFailure::NonPositiveZoom { shown } =>
            "viewport zoom value cannot be zero or negative ("@ + shown + ")"@,
        LoadFailure::NonPositiveMass { shown } =>
            "planet mass cannot be zero or negative ("@ + shown + ")"@,
    }
}

/// A real number read from a token: its text, whether it is zero or less, and how
/// it is shown.
pub struct RealText {
    pub text: Seq<char>,
    pub at_most_zero: bool,
    pub shown: Seq<char>,
}

/// Reads token `p` as a real number.
pub open spec fn real_at(toks: Seq<TokenView>, p: int) -> Result<RealText, LoadFailure> {
    if p < 0 || p >= toks.len() {
        Err(LoadFailure::UnexpectedEnd)
    } else {
        match toks[p].reading {
            FloatReadingView::Invalid { reason } => Err(
                LoadFailure::BadNumber { token: toks[p].text, reason },
            ),
            FloatReadingView::Number { at_most_zero, shown } => Ok(
                RealText { text: toks[p].text, at_most_zero, shown },
            ),
        }
    }
}

/// Reads token `p` as an unsigned integer.
pub open spec fn count_at(toks: Seq<TokenView>, p: int) -> Result<nat, LoadFailure> {
    if p < 0 || p >= toks.len() {
        Err(LoadFailure::UnexpectedEnd)
    } else {
        match text::usize_value(toks[p].text) {
            Some(v) => Ok(v),
            None => Err(
                LoadFailure::BadNumber {
                    token: toks[p].text,
                    reason: text::int_parse_error_text(toks[p].text),
                },
            ),
        }
    }
}

/// Reads the six tokens of a planet starting at token `p`, then checks the mass.
pub open spec fn planet_at(toks: Seq<TokenView>, p: int) -> Result<PlanetText, LoadFailure> {
    match real_at(toks, p) {
        Err(e) => Err(e),
        Ok(px) => match real_at(toks, p + 1) {
            Err(e) => Err(e),
            Ok(py) => match real_at(toks, p + 2) {
                Err(e) => Err(e),
                Ok(vx) => match real_at(toks, p + 3) {
                    Err(e) => Err(e),
                    Ok(vy) => match real_at(toks, p + 4) {
                        Err(e) => Err(e),
                        Ok(m) => match count_at(toks, p + 5) {
                            Err(e) => Err(e),
                            Ok(lock) => if m.at_most_zero {
                                Err(LoadFailure::NonPositiveMass { shown: m.shown })
                            } else {
                                Ok(
                                    PlanetText {
                                        pos_x: px.text,
                                        pos_y: py.text,
                                        vel_x: vx.text,
                                        vel_y: vy.text,
                                        mass: m.text,
                                        locked: lock != 0,
                                    },
                                )
                            },
                        },
                    },
                },
            },
        },
    }
}

/// Where the tokens of planet `k` start.
pub open spec fn planet_start(k: int) -> int {
    5 + 6 * k
}

/// Reads the first `n` planets, in order; the first failure wins.
pub open spec fn planets_upto(toks: Seq<TokenView>, n: nat) -> Result<Seq<PlanetText>, LoadFailure>
    decreases n,
{
    if n == 0 {
        Ok(seq![])
    } else {
        match planets_upto(toks, (n - 1) as nat) {
            Err(e) => Err(e),
            Ok(ps) => match planet_at(toks, planet_start(n - 1)) {
                Err(e) => Err(e),
                Ok(p) => Ok(ps.push(p)),
            },
        }
    }
}

/// Reads a whole save from its tokens.  Numbers are read in order and the
/// first failure is the result; tokens after the last planet are ignored.
pub open spec fn load_spec(toks: Seq<TokenView>) -> Result<SaveText, LoadFailure> {
    match real_at(toks, 0) {
        Err(e) => Err(e),
        Ok(fx) => match real_at(toks, 1) {
            Err(e) => Err(e),
            Ok(fy) => match real_at(toks, 2) {
                Err(e) => Err(e),
                Ok(zoom) => if zoom.at_most_zero {
                    Err(LoadFailure::NonPositiveZoom { shown: zoom.shown })
                } else {
                    match count_at(toks, 3) {
                        Err(e) => Err(e),
                        Ok(tick) => match count_at(toks, 4) {
                            Err(e) => Err(e),
                            Ok(n) => match planets_upto(toks, n) {
                                Err(e) => Err(e),
                                Ok(ps) => Ok(
                                    SaveText {
                                        focus_x: fx.text,
                                        focus_y: fy.text,
                                        zoom: zoom.text,
                                        tick_rate: tick,
                                        planets: ps,
                                    },
                                ),
                            },
                        },
                    }
                },
            },
        },
    }
}

/// A word followed by a separator.
pub open spec fn field(w: Seq<char>, sep: char) -> Seq<char> {
    w.push(sep)
}

/// The text of a lock flag.
pub open spec fn lock_text(locked: bool) -> Seq<char> {
    if locked {
        seq!['1']
    } else {
        seq!['0']
    }
}

/// One planet's line: position, velocity, mass and lock flag.
pub open spec fn planet_line(p: PlanetText) -> Seq<char> {
    field(p.pos_x, ' ') + field(p.pos_y, ' ') + field(p.vel_x, ' ') + field(p.vel_y, ' ')
        + field(p.mass, ' ') + field(lock_text(p.locked), '\n')
}

/// The lines of a list of planets, in order.
pub open spec fn planet_lines(ps: Seq<PlanetText>) -> Seq<char>
    decreases ps.len(),
{
    if ps.len() == 0 {
        seq![]
    } else {
        planet_lines(ps.drop_last()) + planet_line(ps.last())
    }
}

/// The text of a save: the viewport line, the tick-rate and count line, and
/// one line per planet.
pub open spec fn save_text(r: SaveText) -> Seq<char> {
    field(r.focus_x, ' ') + field(r.focus_y, ' ') + field(r.zoom, '\n') + field(
        text::decimal(r.tick_rate),
        ' ',
    ) + field(text::decimal(r.planets.len()), '\n') + planet_lines(r.planets)
}

} // verus!

verus! {

impl LoadError {
    /// The message shown to the user.
    pub fn message(&self) -> (m: String)
        ensures
            m@ == failure_message(self@),
    {
        match self {
            LoadError::UnexpectedEnd => String::from_str(
                "reached EOF early - expected another number",
            ),
            LoadError::BadNumber { token, reason } => {
                let mut m = reason.clone();
                m.append(" (");
                m.append(token.as_str());
                m.append(")");
                m
            },
            LoadError::NonPositiveZoom { shown } => {
                let mut m = String::from_str("viewport zoom value cannot be zero or negative (");
                m.append(shown.as_str());
                m.append(")");
                m
            },
            LoadError::NonPositiveMass { shown } => {
                let mut m = String::from_str("planet mass cannot be zero or negative (");
                m.append(shown.as_str());
                m.append(")");
                m
            },
        }
    }
}

/// A real number read from a token.
pub struct Real {
    pub text: String,
    pub at_most_zero: bool,
    pub shown: String,
}

impl View for Real {
    type V = RealText;

    open spec fn view(&self) -> RealText {
        RealText { text: self.text@, at_most_zero: self.at_most_zero, shown: self.shown@ }
    }
}

fn read_real(toks: &Vec<Token>, p: usize) -> (r: Result<Real, LoadError>)
    ensures
        match r {
            Ok(x) => real_at(token_views(toks@), p as int) == Ok::<RealText, LoadFailure>(x@),
            Err(e) => real_at(token_views(toks@), p as int) == Err::<RealText, LoadFailure>(e@),
        },
        r is Ok ==> p < toks.len(),
{
    if p >= toks.len() {
        return Err(LoadError::UnexpectedEnd);
    }
    let tok = &toks[p];
    match &tok.reading {
        FloatReading::Invalid { reason } => Err(
            LoadError::BadNumber { token: tok.text.clone(), reason: reason.clone() },
        ),
        FloatReading::Number { at_most_zero, shown } => Ok(
            Real { text: tok.text.clone(), at_most_zero: *at_most_zero, shown: shown.clone() },
        ),
    }
}

fn read_count(toks: &Vec<Token>, p: usize) -> (r: Result<usize, LoadError>)
    ensures
        match r {
            Ok(x) => count_at(token_views(toks@), p as int) == Ok::<nat, LoadFailure>(x as nat),
            Err(e) => count_at(token_views(toks@), p as int) == Err::<nat, LoadFailure>(e@),
        },
        r is Ok ==> p < toks.len(),
{
    if p >= toks.len() {
        return Err(LoadError::UnexpectedEnd);
    }
    let tok = &toks[p];
    match parse_usize(tok.text.as_str()) {
        Ok(v) => Ok(v),
        Err(reason) => Err(LoadError::BadNumber { token: tok.text.clone(), reason }),
    }
}

fn read_planet(toks: &Vec<Token>, p: usize) -> (r: Result<PlanetRecord, LoadError>)
    ensures
        match r {
            Ok(x) => planet_at(token_views(toks@), p as int) == Ok::<PlanetText, LoadFailure>(x@),
            Err(e) => planet_at(token_views(toks@), p as int) == Err::<PlanetText, LoadFailure>(e@),
        },
        r is Ok ==> p + 5 < toks.len(),
{
    let px = read_real(toks, p)?;
    let py = read_real(toks, p + 1)?;
    let vx = read_real(toks, p + 2)?;
    let vy = read_real(toks, p + 3)?;
    let m = read_real(toks, p + 4)?;
    let lock = read_count(toks, p + 5)?;
    if m.at_most_zero {
        return Err(LoadError::NonPositiveMass { shown: m.shown });
    }
    Ok(
        PlanetRecord {
            pos_x: px.text,
            pos_y: py.text,
            vel_x: vx.text,
            vel_y: vy.text,
            mass: m.text,
            locked: lock != 0,
        },
    )
}

proof fn lemma_planets_failure_persists(toks: Seq<TokenView>, k: nat, n: nat)
    requires
        k <= n,
        planets_upto(toks, k) is Err,
    ensures
        planets_upto(toks, n) == planets_upto(toks, k),
    decreases n,
{
    if n > k {
        lemma_planets_failure_persists(toks, k, (n - 1) as nat);
    }
}

/// Reads a save from its tokens, exactly as `load_spec` describes.
#[verifier::loop_isolation(false)]
pub fn parse_save_tokens(toks: &Vec<Token>) -> (r: Result<SaveRecord, LoadError>)
    ensures
        match r {
            Ok(rec) => load_spec(token_views(toks@)) == Ok::<SaveText, LoadFailure>(rec@),
            Err(e) => load_spec(token_views(toks@)) == Err::<SaveText, LoadFailure>(e@),
        },
{
    let ghost v = token_views(toks@);
    let fx = read_real(toks, 0)?;
    let fy = read_real(toks, 1)?;
    let zoom = read_real(toks, 2)?;
    if zoom.at_most_zero {
        return Err(LoadError::NonPositiveZoom { shown: zoom.shown });
    }
    let tick = read_count(toks, 3)?;
    let n = read_count(toks, 4)?;
    let mut planets: Vec<PlanetRecord> = Vec::new();
    let mut p: usize = 5;
    let mut i: usize = 0;
    assert(planets@.map_values(|q: PlanetRecord| q@) =~= Seq::<PlanetText>::empty());
    while i < n
        invariant
            v == token_views(toks@),
            i <= n,
            p == planet_start(i as int),
            p <= toks.len(),
            planets_upto(v, i as nat) == Ok::<Seq<PlanetText>, LoadFailure>(
                planets@.map_values(|q: PlanetRecord| q@),
            ),
        decreases n - i,
    {
        match read_planet(toks, p) {
            Ok(planet) => {
                let ghost before = planets@.map_values(|q: PlanetRecord| q@);
                planets.push(planet);
                assert(planets@.map_values(|q: PlanetRecord| q@) =~= before.push(planet@));
                i = i + 1;
                p = p + 6;
            },
            Err(e) => {
                proof {
                    assert(planets_upto(v, (i + 1) as nat) == Err::<Seq<PlanetText>, LoadFailure>(e@));
                    lemma_planets_failure_persists(v, (i + 1) as nat, n as nat);
                }
                return Err(e);
            },
        }
    }
    Ok(
        SaveRecord {
            focus_x: fx.text,
            focus_y: fy.text,
            zoom: zoom.text,
            tick_rate: tick,
            planets,
        },
    )
}

fn push_field(out: &mut String, w: &String, sep: char)
    ensures
        final(out)@ == old(out)@ + field(w@, sep),
{
    out.append(w.as_str());
    push_char(out, sep);
    assert(final(out)@ =~= old(out)@ + field(w@, sep));
}

/// Writes a save as text, exactly as `save_text` describes.
pub fn render_save(rec: &SaveRecord) -> (text: String)
    ensures
        text@ == save_text(rec@),
{
    let ghost r = rec@;
    let mut out = String::new();
    push_field(&mut out, &rec.focus_x, ' ');
    push_field(&mut out, &rec.focus_y, ' ');
    push_field(&mut out, &rec.zoom, '\n');
    let ghost before = out@;
    push_decimal(&mut out, rec.tick_rate);
    push_char(&mut out, ' ');
    assert(out@ =~= before + field(text::decimal(rec.tick_rate as nat), ' '));
    let ghost before = out@;
    push_decimal(&mut out, rec.planets.len());
    push_char(&mut out, '\n');
    assert(out@ =~= before + field(text::decimal(rec.planets.len() as nat), '\n'));
    let ghost header = out@;
    assert(r.planets.take(0) =~= Seq::<PlanetText>::empty());
    for i in 0..rec.planets.len()
        invariant
            r == rec@,
            out@ == header + planet_lines(r.planets.take(i as int)),
    {
        let planet = &rec.planets[i];
        let ghost before = out@;
        push_field(&mut out, &planet.pos_x, ' ');
        push_field(&mut out, &planet.pos_y, ' ');
        push_field(&mut out, &planet.vel_x, ' ');
        push_field(&mut out, &planet.vel_y, ' ');
        push_field(&mut out, &planet.mass, ' ');
        if planet.locked {
            push_char(&mut out, '1');
        } else {
            push_char(&mut out, '0');
        }
        push_char(&mut out, '\n');
        assert(r.planets[i as int] == planet@);
        assert(out@ =~= before + planet_line(planet@));
        assert(r.planets.take(i + 1).drop_last() =~= r.planets.take(i as int));
    }
    assert(r.planets.take(rec.planets.len() as int) =~= r.planets);
    out
}

} // verus!

verus! {

/// The tokens that stand for one planet: its five real numbers and its lock flag.
pub open spec fn planet_fields(p: PlanetText) -> Seq<Seq<char>> {
    seq![p.pos_x, p.pos_y, p.vel_x, p.vel_y, p.mass, lock_text(p.locked)]
}

/// The tokens that stand for a list of planets, in order.
pub open spec fn planet_tokens(ps: Seq<PlanetText>) -> Seq<Seq<char>>
    decreases ps.len(),
{
    if ps.len() == 0 {
        seq![]
    } else {
        planet_tokens(ps.drop_last()) + planet_fields(ps.last())
    }
}

/// The tokens that stand for a save, in the order they are written and read.
pub open spec fn record_tokens(r: SaveText) -> Seq<Seq<char>> {
    seq![r.focus_x, r.focus_y, r.zoom, text::decimal(r.tick_rate), text::decimal(r.planets.len())]
        + planet_tokens(r.planets)
}

/// Every real number of the save is written as one word, and the counts fit
/// in `usize`.
pub open spec fn well_formed_text(r: SaveText) -> bool {
    &&& text::is_word(r.focus_x)
    &&& text::is_word(r.focus_y)
    &&& text::is_word(r.zoom)
    &&& r.tick_rate <= usize::MAX
    &&& r.planets.len() <= usize::MAX
    &&& forall|k: int|
        0 <= k < r.planets.len() ==> {
            let p = #[trigger] r.planets[k];
            &&& text::is_word(p.pos_x)
            &&& text::is_word(p.pos_y)
            &&& text::is_word(p.vel_x)
            &&& text::is_word(p.vel_y)
            &&& text::is_word(p.mass)
        }
}

proof fn lemma_tokens_planet_line(p: PlanetText)
    requires
        text::is_word(p.pos_x),
        text::is_word(p.pos_y),
        text::is_word(p.vel_x),
        text::is_word(p.vel_y),
        text::is_word(p.mass),
    ensures
        text::tokens(planet_line(p)) == planet_fields(p),
{
    let f1 = field(p.pos_x, ' ');
    let f2 = field(p.pos_y, ' ');
    let f3 = field(p.vel_x, ' ');
    let f4 = field(p.vel_y, ' ');
    let f5 = field(p.mass, ' ');
    let f6 = field(lock_text(p.locked), '\n');
    assert(text::is_word(lock_text(p.locked)));
    assert(text::is_white_space(' ') && text::is_white_space('\n'));
    text::lemma_tokens_field(p.pos_x, ' ');
    text::lemma_tokens_field(p.pos_y, ' ');
    text::lemma_tokens_field(p.vel_x, ' ');
    text::lemma_tokens_field(p.vel_y, ' ');
    text::lemma_tokens_field(p.mass, ' ');
    text::lemma_tokens_field(lock_text(p.locked), '\n');
    text::lemma_tokens_append(f1, f2);
    text::lemma_tokens_append(f1 + f2, f3);
    text::lemma_tokens_append(f1 + f2 + f3, f4);
    text::lemma_tokens_append(f1 + f2 + f3 + f4, f5);
    text::lemma_tokens_append(f1 + f2 + f3 + f4 + f5, f6);
    assert(text::tokens(planet_line(p)) =~= planet_fields(p));
}

proof fn lemma_planet_lines_end(ps: Seq<PlanetText>)
    ensures
        planet_lines(ps).len() == 0 || planet_lines(ps).last() == '\n',
{
    if ps.len() > 0 {
        let p = ps.last();
        assert(planet_line(p).last() == '\n');
    }
}

proof fn lemma_tokens_planet_lines(ps: Seq<PlanetText>)
    requires
        forall|k: int|
            0 <= k < ps.len() ==> {
                let p = #[trigger] ps[k];
                &&& text::is_word(p.pos_x)
                &&& text::is_word(p.pos_y)
                &&& text::is_word(p.vel_x)
                &&& text::is_word(p.vel_y)
                &&& text::is_word(p.mass)
            },
    ensures
        text::tokens(planet_lines(ps)) == planet_tokens(ps),
    decreases ps.len(),
{
    if ps.len() == 0 {
        assert(planet_lines(ps) =~= Seq::<char>::empty());
    } else {
        let init = ps.drop_last();
        assert forall|k: int| 0 <= k < init.len() implies {
            let p = #[trigger] init[k];
            &&& text::is_word(p.pos_x)
            &&& text::is_word(p.pos_y)
            &&& text::is_word(p.vel_x)
            &&& text::is_word(p.vel_y)
            &&& text::is_word(p.mass)
        } by {
            assert(init[k] == ps[k]);
        }
        lemma_tokens_planet_lines(init);
        lemma_planet_lines_end(init);
        assert(ps.last() == ps[ps.len() - 1]);
        lemma_tokens_planet_line(ps.last());
        text::lemma_tokens_append(planet_lines(init), planet_line(ps.last()));
    }
}

/// The words of a written save are the save's tokens.
pub proof fn lemma_tokens_of_save_text(r: SaveText)
    requires
        well_formed_text(r),
    ensures
        text::tokens(save_text(r)) == record_tokens(r),
{
    let f1 = field(r.focus_x, ' ');
    let f2 = field(r.focus_y, ' ');
    let f3 = field(r.zoom, '\n');
    let f4 = field(text::decimal(r.tick_rate), ' ');
    let f5 = field(text::decimal(r.planets.len()), '\n');
    assert(text::is_white_space(' ') && text::is_white_space('\n'));
    text::lemma_decimal_digits(r.tick_rate);
    text::lemma_decimal_digits(r.planets.len());
    text::lemma_tokens_field(r.focus_x, ' ');
    text::lemma_tokens_field(r.focus_y, ' ');
    text::lemma_tokens_field(r.zoom, '\n');
    text::lemma_tokens_field(text::decimal(r.tick_rate), ' ');
    text::lemma_tokens_field(text::decimal(r.planets.len()), '\n');
    lemma_tokens_planet_lines(r.planets);
    text::lemma_tokens_append(f1, f2);
    text::lemma_tokens_append(f1 + f2, f3);
    text::lemma_tokens_append(f1 + f2 + f3, f4);
    text::lemma_tokens_append(f1 + f2 + f3 + f4, f5);
    text::lemma_tokens_append(f1 + f2 + f3 + f4 + f5, planet_lines(r.planets));
    assert(text::tokens(save_text(r)) =~= record_tokens(r));
}

proof fn lemma_planet_tokens_index(ps: Seq<PlanetText>, k: int, j: int)
    requires
        0 <= k < ps.len(),
        0 <= j < 6,
    ensures
        planet_tokens(ps).len() == 6 * ps.len(),
        planet_tokens(ps)[6 * k + j] == planet_fields(ps[k])[j],
    decreases ps.len(),
{
    lemma_planet_tokens_len(ps);
    let init = ps.drop_last();
    lemma_planet_tokens_len(init);
    if k < ps.len() - 1 {
        lemma_planet_tokens_index(init, k, j);
        assert(init[k] == ps[k]);
    }
}

proof fn lemma_planet_tokens_len(ps: Seq<PlanetText>)
    ensures
        planet_tokens(ps).len() == 6 * ps.len(),
    decreases ps.len(),
{
    if ps.len() > 0 {
        lemma_planet_tokens_len(ps.drop_last());
    }
}

/// Whether a reading is a number that is not zero or less.
pub open spec fn reading_accepted(r: FloatReadingView) -> bool {
    match r {
        FloatReadingView::Number { at_most_zero, .. } => !at_most_zero,
        FloatReadingView::Invalid { .. } => false,
    }
}

/// The token positions of a save that hold real numbers: the viewport
/// numbers and, for each planet, all but its lock flag.
pub open spec fn is_real_position(p: int) -> bool {
    p < 3 || (p >= 5 && (p - 5) % 6 != 5)
}

/// Reading back what was written: if every real number of a saved text reads
/// as a number, and the zoom and the masses read as not zero or less, loading the
/// text's words gives the save back.
pub proof fn lemma_load_after_save(r: SaveText, toks: Seq<TokenView>)
    requires
        well_formed_text(r),
        toks.map_values(|t: TokenView| t.text) == text::tokens(save_text(r)),
        forall|p: int|
            0 <= p < toks.len() && is_real_position(p) ==> #[trigger] toks[p].reading
                is Number,
        reading_accepted(toks[2].reading),
        forall|k: int|
            0 <= k < r.planets.len() ==> reading_accepted(
                #[trigger] toks[planet_start(k) + 4].reading,
            ),
    ensures
        load_spec(toks) == Ok::<SaveText, LoadFailure>(r),
{
    lemma_tokens_of_save_text(r);
    let texts = toks.map_values(|t: TokenView| t.text);
    lemma_planet_tokens_len(r.planets);
    assert(texts.len() == toks.len());
    assert(record_tokens(r).len() == 5 + planet_tokens(r.planets).len());
    assert(toks.len() == 5 + 6 * r.planets.len());
    assert forall|i: int| 0 <= i < toks.len() implies toks[i].text == #[trigger] record_tokens(
        r,
    )[i] by {
        assert(texts[i] == toks[i].text);
    }
    assert(toks[0].text == record_tokens(r)[0]);
    assert(toks[1].text == record_tokens(r)[1]);
    assert(toks[2].text == record_tokens(r)[2]);
    assert(toks[3].text == record_tokens(r)[3]);
    assert(toks[4].text == record_tokens(r)[4]);
    assert(is_real_position(0) && is_real_position(1) && is_real_position(2));
    assert(toks[0].reading is Number);
    assert(toks[1].reading is Number);
    assert(toks[2].reading is Number);
    text::lemma_usize_value_of_decimal(r.tick_rate);
    text::lemma_usize_value_of_decimal(r.planets.len());
    let n = r.planets.len();
    assert(count_at(toks, 4) == Ok::<nat, LoadFailure>(n));
    lemma_planets_read_back(r, toks, n);
    assert(r.planets.take(n as int) =~= r.planets);
}

proof fn lemma_planet_token_text(r: SaveText, toks: Seq<TokenView>, i: int, j: int)
    requires
        0 <= i < r.planets.len(),
        0 <= j < 6,
        toks.len() == 5 + 6 * r.planets.len(),
        forall|q: int| 0 <= q < toks.len() ==> toks[q].text == #[trigger] record_tokens(r)[q],
    ensures
        toks[planet_start(i) + j].text == planet_fields(r.planets[i])[j],
{
    lemma_planet_tokens_index(r.planets, i, j);
    let q = planet_start(i) + j;
    assert(toks[q].text == record_tokens(r)[q]);
    assert(record_tokens(r)[q] == planet_tokens(r.planets)[6 * i + j]);
}

proof fn lemma_planets_read_back(r: SaveText, toks: Seq<TokenView>, k: nat)
    requires
        well_formed_text(r),
        k <= r.planets.len(),
        toks.len() == 5 + 6 * r.planets.len(),
        forall|i: int| 0 <= i < toks.len() ==> toks[i].text == #[trigger] record_tokens(r)[i],
        forall|p: int|
            0 <= p < toks.len() && is_real_position(p) ==> #[trigger] toks[p].reading
                is Number,
        forall|j: int|
            0 <= j < r.planets.len() ==> reading_accepted(
                #[trigger] toks[planet_start(j) + 4].reading,
            ),
    ensures
        planets_upto(toks, k) == Ok::<Seq<PlanetText>, LoadFailure>(r.planets.take(k as int)),
    decreases k,
{
    if k == 0 {
        assert(r.planets.take(0) =~= Seq::<PlanetText>::empty());
    } else {
        let i = k - 1;
        lemma_planets_read_back(r, toks, i as nat);
        let p = r.planets[i];
        let s = planet_start(i);
        lemma_planet_token_text(r, toks, i, 0);
        lemma_planet_token_text(r, toks, i, 1);
        lemma_planet_token_text(r, toks, i, 2);
        lemma_planet_token_text(r, toks, i, 3);
        lemma_planet_token_text(r, toks, i, 4);
        lemma_planet_token_text(r, toks, i, 5);
        assert(toks[s].text == p.pos_x);
        assert(toks[s + 1].text == p.pos_y);
        assert(toks[s + 2].text == p.vel_x);
        assert(toks[s + 3].text == p.vel_y);
        assert(toks[s + 4].text == p.mass);
        assert(toks[s + 5].text == lock_text(p.locked));
        assert(is_real_position(s) && is_real_position(s + 1) && is_real_position(s + 2)
            && is_real_position(s + 3) && is_real_position(s + 4));
        assert(toks[s].reading is Number);
        assert(toks[s + 1].reading is Number);
        assert(toks[s + 2].reading is Number);
        assert(toks[s + 3].reading is Number);
        assert(toks[s + 4].reading is Number);
        assert(reading_accepted(toks[planet_start(i) + 4].reading));
        text::lemma_usize_value_of_decimal(0);
        text::lemma_usize_value_of_decimal(1);
        assert(text::decimal(0) =~= seq!['0']);
        assert(text::decimal(1) =~= seq!['1']);
        assert(planet_at(toks, s) == Ok::<PlanetText, LoadFailure>(p));
        assert(r.planets.take(k as int) =~= r.planets.take(i).push(p));
    }
}

} // verus!

verus! {

/// What a planet that reads well was read from: its mass word and its lock
/// flag.
proof fn lemma_planet_at_read(toks: Seq<TokenView>, p: int)
    requires
        planet_at(toks, p) is Ok,
    ensures
        0 <= p + 4 < toks.len(),
        reading_accepted(toks[p + 4].reading),
        planet_at(toks, p)->Ok_0.mass == toks[p + 4].text,
        count_at(toks, p + 5) is Ok,
        planet_at(toks, p)->Ok_0.locked == (count_at(toks, p + 5)->Ok_0 != 0),
{
    assert(real_at(toks, p) is Ok);
    assert(real_at(toks, p + 4) is Ok);
    assert(count_at(toks, p + 5) is Ok);
}

/// The same, for each of the first `n` planets of a list that reads well.
proof fn lemma_planets_upto_read(toks: Seq<TokenView>, n: nat, k: int)
    requires
        planets_upto(toks, n) is Ok,
        0 <= k < n,
    ensures
        planets_upto(toks, n)->Ok_0.len() == n,
        0 <= planet_start(k) + 4 < toks.len(),
        reading_accepted(toks[planet_start(k) + 4].reading),
        planets_upto(toks, n)->Ok_0[k].mass == toks[planet_start(k) + 4].text,
        count_at(toks, planet_start(k) + 5) is Ok,
        planets_upto(toks, n)->Ok_0[k].locked == (count_at(toks, planet_start(k) + 5)->Ok_0 != 0),
    decreases n,
{
    lemma_planets_upto_len(toks, n);
    let prev = planets_upto(toks, (n - 1) as nat);
    assert(prev is Ok);
    let last = planet_at(toks, planet_start(n - 1));
    assert(last is Ok);
    let ps = planets_upto(toks, n)->Ok_0;
    assert(ps == prev->Ok_0.push(last->Ok_0));
    if k < n - 1 {
        lemma_planets_upto_read(toks, (n - 1) as nat, k);
        assert(ps[k] == prev->Ok_0[k]);
    } else {
        lemma_planet_at_read(toks, planet_start(n - 1));
        assert(ps[k] == last->Ok_0);
    }
}

proof fn lemma_planets_upto_len(toks: Seq<TokenView>, n: nat)
    requires
        planets_upto(toks, n) is Ok,
    ensures
        planets_upto(toks, n)->Ok_0.len() == n,
    decreases n,
{
    if n > 0 {
        assert(planets_upto(toks, (n - 1) as nat) is Ok);
        lemma_planets_upto_len(toks, (n - 1) as nat);
    }
}

/// The token that holds the mass of planet `k`.
pub open spec fn mass_token(toks: Seq<TokenView>, k: int) -> TokenView {
    toks[planet_start(k) + 4]
}

/// A load succeeds only with a zoom and planet masses that read as numbers
/// that are not zero or less (NaN included), whatever a planet's lock flag:
/// every loaded planet's mass is the text of such a word, and the planet is
/// locked exactly when its flag reads as a non-zero integer.
pub proof fn lemma_loaded_masses_positive(toks: Seq<TokenView>, r: SaveText)
    requires
        load_spec(toks) == Ok::<SaveText, LoadFailure>(r),
    ensures
        toks.len() >= 5,
        reading_accepted(toks[2].reading),
        r.zoom == toks[2].text,
        count_at(toks, 4) == Ok::<nat, LoadFailure>(r.planets.len()),
        toks.len() >= planet_start(r.planets.len() as int),
        forall|k: int|
            0 <= k < r.planets.len() ==> reading_accepted(#[trigger] mass_token(toks, k).reading),
        forall|k: int|
            0 <= k < r.planets.len() ==> (#[trigger] r.planets[k]).mass == mass_token(toks, k).text
                && count_at(toks, planet_start(k) + 5) is Ok && r.planets[k].locked == (count_at(
                toks,
                planet_start(k) + 5,
            )->Ok_0 != 0),
{
    assert(real_at(toks, 2) is Ok);
    assert(count_at(toks, 4) is Ok);
    let n = count_at(toks, 4)->Ok_0;
    assert(planets_upto(toks, n) is Ok);
    lemma_planets_upto_len(toks, n);
    assert(r.planets == planets_upto(toks, n)->Ok_0);
    if n > 0 {
        lemma_planets_upto_read(toks, n, n - 1);
    }
    assert forall|k: int| 0 <= k < r.planets.len() implies reading_accepted(
        #[trigger] mass_token(toks, k).reading,
    ) by {
        lemma_planets_upto_read(toks, n, k);
    }
    assert forall|k: int| 0 <= k < r.planets.len() implies (#[trigger] r.planets[k]).mass
        == mass_token(toks, k).text && count_at(toks, planet_start(k) + 5) is Ok
        && r.planets[k].locked == (count_at(toks, planet_start(k) + 5)->Ok_0 != 0) by {
        lemma_planets_upto_read(toks, n, k);
    }
}

/// A planet whose numbers all read well but whose mass reads as zero or less
/// makes the load fail with that mass, when nothing before it failed and the
/// count covers it; the lock flag does not matter.
pub proof fn lemma_non_positive_mass_refused(toks: Seq<TokenView>, k: nat)
    requires
        planets_upto(toks, k) is Ok,
        real_at(toks, planet_start(k as int)) is Ok,
        real_at(toks, planet_start(k as int) + 1) is Ok,
        real_at(toks, planet_start(k as int) + 2) is Ok,
        real_at(toks, planet_start(k as int) + 3) is Ok,
        real_at(toks, planet_start(k as int) + 4) is Ok,
        count_at(toks, planet_start(k as int) + 5) is Ok,
        real_at(toks, planet_start(k as int) + 4)->Ok_0.at_most_zero,
    ensures
        forall|n: nat|
            n > k ==> #[trigger] planets_upto(toks, n) == Err::<Seq<PlanetText>, LoadFailure>(
                LoadFailure::NonPositiveMass {
                    shown: real_at(toks, planet_start(k as int) + 4)->Ok_0.shown,
                },
            ),
{
    assert(planets_upto(toks, k + 1) is Err);
    assert forall|n: nat| n > k implies #[trigger] planets_upto(toks, n) == Err::<
        Seq<PlanetText>,
        LoadFailure,
    >(LoadFailure::NonPositiveMass { shown: real_at(toks, planet_start(k as int) + 4)->Ok_0.shown }) by {
        lemma_planets_failure_persists(toks, k + 1, n);
    }
}

} // verus!
