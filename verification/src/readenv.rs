//! The build description: a text of `KEY = VALUE` lines that gives the paths
//! and file names of one build.
//!
//! Each line is cut at its first `=`. What stands before, trimmed, names the
//! variable; what stands after, trimmed, is its value. A line without `=`,
//! with an empty name, an empty value or a name outside the six variables
//! changes nothing. Lines are taken in order, so a later assignment replaces
//! an earlier one.

use crate::text::{
    all_space, chars_of, find_char, first_index, is_space, join, lemma_first_index,
    lemma_first_index_found, lemma_split_join, lemma_trim_padded, same_text, split, split_slice,
    string_of, trim, trim_slice, trimmed, views,
};
use vstd::prelude::*;
use vstd::slice::slice_subrange;

verus! {

/// The six variables of a build description.
#[derive(Debug, PartialEq, Eq, Structural, Clone, Copy, Hash)]
pub enum ConfigKey {
    OutDir,
    AsmFiles,
    LinkScript,
    OutObj,
    OutImg,
    LinkObj,
}

/// The character that parts a variable's name from its value.
pub const ASSIGN: char = '=';

/// The character that ends a line.
pub const LINE_FEED: char = '\n';

/// The name under which a variable stands in the text.
pub open spec fn key_name(key: ConfigKey) -> Seq<char> {
    match key {
        ConfigKey::OutDir => "OUT_DIR"@,
        ConfigKey::AsmFiles => "ASM_FILES"@,
        ConfigKey::LinkScript => "LINK_SCRIPT"@,
        ConfigKey::OutObj => "OUT_OBJ"@,
        ConfigKey::OutImg => "OUT_IMG"@,
        ConfigKey::LinkObj => "LINK_OBJ"@,
    }
}

/// The variable that `name` names, if it names one.
pub open spec fn key_of(name: Seq<char>) -> Option<ConfigKey> {
    if name == key_name(ConfigKey::OutDir) {
        Some(ConfigKey::OutDir)
    } else if name == key_name(ConfigKey::AsmFiles) {
        Some(ConfigKey::AsmFiles)
    } else if name == key_name(ConfigKey::LinkScript) {
        Some(ConfigKey::LinkScript)
    } else if name == key_name(ConfigKey::OutObj) {
        Some(ConfigKey::OutObj)
    } else if name == key_name(ConfigKey::OutImg) {
        Some(ConfigKey::OutImg)
    } else if name == key_name(ConfigKey::LinkObj) {
        Some(ConfigKey::LinkObj)
    } else {
        None
    }
}

/// What stands before the first `sep` of `line`, trimmed; empty when `line`
/// holds no `sep`.
pub open spec fn prefix(line: Seq<char>, sep: char) -> Seq<char> {
    let at = first_index(line, sep) as int;
    if at < line.len() {
        trim(line.take(at))
    } else {
        Seq::empty()
    }
}

/// What stands after the first `sep` of `line`, trimmed; empty when `line`
/// holds no `sep`.
pub open spec fn suffix(line: Seq<char>, sep: char) -> Seq<char> {
    let at = first_index(line, sep) as int;
    if at < line.len() {
        trim(line.skip(at + 1))
    } else {
        Seq::empty()
    }
}

/// The variable that `line` sets and the value it gets, if `line` sets one.
pub open spec fn assignment(line: Seq<char>) -> Option<(ConfigKey, Seq<char>)> {
    match key_of(prefix(line, ASSIGN)) {
        Some(key) => if suffix(line, ASSIGN).len() > 0 {
            Some((key, suffix(line, ASSIGN)))
        } else {
            None
        },
        None => None,
    }
}

/// A configuration as a mapping: every variable has a value, possibly empty.
pub type ConfigMap = Map<ConfigKey, Seq<char>>;

/// The configuration in which no variable is set.
pub open spec fn empty_config() -> ConfigMap {
    Map::total(|key: ConfigKey| Seq::<char>::empty())
}

/// `cfg` after `line` has been read.
pub open spec fn apply_line(cfg: ConfigMap, line: Seq<char>) -> ConfigMap {
    match assignment(line) {
        Some((key, value)) => cfg.insert(key, value),
        None => cfg,
    }
}

/// `cfg` after the lines of `lines` have been read in order.
pub open spec fn apply_lines(cfg: ConfigMap, lines: Seq<Seq<char>>) -> ConfigMap
    decreases lines.len(),
{
    if lines.len() == 0 {
        cfg
    } else {
        apply_line(apply_lines(cfg, lines.drop_last()), lines.last())
    }
}

/// The configuration that the text `text` describes.
pub open spec fn parse_text(text: Seq<char>) -> ConfigMap {
    apply_lines(empty_config(), split(text, LINE_FEED))
}

/// Whether `line` sets the variable `key`.
pub open spec fn sets(line: Seq<char>, key: ConfigKey) -> bool {
    assignment(line) matches Some((set, _)) && set == key
}

/// Every variable is found again under its own name, and the empty text
/// names none.
pub proof fn lemma_key_names(key: ConfigKey)
    ensures
        key_of(key_name(key)) == Some(key),
        key_of(Seq::empty()) is None,
{
    reveal_strlit("OUT_DIR");
    reveal_strlit("ASM_FILES");
    reveal_strlit("LINK_SCRIPT");
    reveal_strlit("OUT_OBJ");
    reveal_strlit("OUT_IMG");
    reveal_strlit("LINK_OBJ");
    assert("OUT_DIR"@.len() == 7 && "OUT_DIR"@[4] == 'D');
    assert("OUT_OBJ"@.len() == 7 && "OUT_OBJ"@[4] == 'O');
    assert("OUT_IMG"@.len() == 7 && "OUT_IMG"@[4] == 'I');
    assert("ASM_FILES"@.len() == 9);
    assert("LINK_SCRIPT"@.len() == 11);
    assert("LINK_OBJ"@.len() == 8);
    assert(Seq::<char>::empty().len() == 0);
}

/// A line of the form `left = right` whose left side, trimmed, is the name
/// of a variable, and whose right side holds more than white space, sets
/// that variable to the right side without the white space around it.
pub proof fn lemma_assignment_line(left: Seq<char>, right: Seq<char>, key: ConfigKey)
    requires
        !left.contains(ASSIGN),
        trim(left) == key_name(key),
        trim(right).len() > 0,
    ensures
        assignment(left + seq![ASSIGN] + right) == Some((key, trim(right))),
        forall|cfg: ConfigMap| #[trigger]
            apply_line(cfg, left + seq![ASSIGN] + right) == cfg.insert(key, trim(right)),
{
    let line = left + seq![ASSIGN] + right;
    assert forall|j: int| 0 <= j < left.len() implies line[j] != ASSIGN by {
        assert(line[j] == left[j]);
        assert(left.contains(left[j]));
    }
    lemma_first_index(line, ASSIGN, left.len() as int);
    assert(line.take(left.len() as int) =~= left);
    assert(line.skip(left.len() as int + 1) =~= right);
    lemma_key_names(key);
}

/// The name of a variable is trimmed and holds no `=`.
pub proof fn lemma_key_name_plain(key: ConfigKey)
    ensures
        trimmed(key_name(key)),
        key_name(key).len() > 0,
        !key_name(key).contains(ASSIGN),
        forall|i: int| 0 <= i < key_name(key).len() ==> !is_space(#[trigger] key_name(key)[i]),
{
    reveal_strlit("OUT_DIR");
    reveal_strlit("ASM_FILES");
    reveal_strlit("LINK_SCRIPT");
    reveal_strlit("OUT_OBJ");
    reveal_strlit("OUT_IMG");
    reveal_strlit("LINK_OBJ");
    let name = key_name(key);
    assert forall|i: int| 0 <= i < name.len() implies (#[trigger] name[i]) != ASSIGN && !is_space(
        name[i],
    ) by {
        assert(name[i] == 'O' || name[i] == 'U' || name[i] == 'T' || name[i] == '_' || name[i]
            == 'D' || name[i] == 'I' || name[i] == 'R' || name[i] == 'A' || name[i] == 'S'
            || name[i] == 'M' || name[i] == 'F' || name[i] == 'L' || name[i] == 'E' || name[i]
            == 'N' || name[i] == 'K' || name[i] == 'C' || name[i] == 'P' || name[i] == 'B'
            || name[i] == 'J' || name[i] == 'G');
    }
}

/// The line `K = value`, with any white space before `K`, around `=` and
/// after `value`, sets the variable named `K` to `value`, where `value` is
/// not empty and is itself trimmed.
pub proof fn lemma_padded_assignment(
    key: ConfigKey,
    lead: Seq<char>,
    mid: Seq<char>,
    pad: Seq<char>,
    value: Seq<char>,
    trail: Seq<char>,
)
    requires
        all_space(lead),
        all_space(mid),
        all_space(pad),
        all_space(trail),
        value.len() > 0,
        trimmed(value),
    ensures
        assignment(lead + key_name(key) + mid + seq![ASSIGN] + pad + value + trail) == Some(
            (key, value),
        ),
{
    let left = lead + key_name(key) + mid;
    let right = pad + value + trail;
    lemma_key_name_plain(key);
    lemma_trim_padded(lead, key_name(key), mid);
    lemma_trim_padded(pad, value, trail);
    assert(!left.contains(ASSIGN)) by {
        if left.contains(ASSIGN) {
            let i = choose|i: int| 0 <= i < left.len() && left[i] == ASSIGN;
            if i < lead.len() {
                assert(left[i] == lead[i]);
            } else if i < lead.len() + key_name(key).len() {
                assert(left[i] == key_name(key)[i - lead.len()]);
            } else {
                assert(left[i] == mid[i - lead.len() - key_name(key).len()]);
            }
        }
    }
    lemma_assignment_line(left, right, key);
    assert(left + seq![ASSIGN] + right =~= lead + key_name(key) + mid + seq![ASSIGN] + pad + value
        + trail);
}

/// A line without `=`, with nothing but white space before its first `=`,
/// with nothing but white space after it, or with a name that is none of
/// the six, sets no variable: reading it leaves any configuration as it was.
pub proof fn lemma_ignored_line(line: Seq<char>)
    requires
        !line.contains(ASSIGN) || prefix(line, ASSIGN).len() == 0 || suffix(line, ASSIGN).len()
            == 0 || key_of(prefix(line, ASSIGN)) is None,
    ensures
        assignment(line) is None,
        forall|cfg: ConfigMap| #[trigger] apply_line(cfg, line) == cfg,
{
    lemma_first_index_found(line, ASSIGN);
    lemma_key_names(ConfigKey::OutDir);
    assert(prefix(line, ASSIGN).len() == 0 ==> prefix(line, ASSIGN) =~= Seq::<char>::empty());
}

/// Lines are read one after the other: reading `first` and then `second`
/// is reading the two in a row.
pub proof fn lemma_apply_lines_concat(cfg: ConfigMap, first: Seq<Seq<char>>, second: Seq<Seq<char>>)
    ensures
        apply_lines(cfg, first + second) == apply_lines(apply_lines(cfg, first), second),
    decreases second.len(),
{
    if second.len() == 0 {
        assert(first + second =~= first);
    } else {
        assert((first + second).drop_last() =~= first + second.drop_last());
        assert((first + second).last() == second.last());
        lemma_apply_lines_concat(cfg, first, second.drop_last());
    }
}

/// A line that sets no variable can be taken out of a description, wherever
/// it stands, without any change to what the description says.
pub proof fn lemma_line_without_effect(
    cfg: ConfigMap,
    before: Seq<Seq<char>>,
    line: Seq<char>,
    after: Seq<Seq<char>>,
)
    requires
        assignment(line) is None,
    ensures
        apply_lines(cfg, before + seq![line] + after) == apply_lines(cfg, before + after),
{
    lemma_apply_lines_concat(cfg, before + seq![line], after);
    lemma_apply_lines_concat(cfg, before, after);
    assert((before + seq![line]).drop_last() =~= before);
    assert((before + seq![line]).last() == line);
}

/// The value of a variable is the value that the last line that sets it
/// gives it.
pub proof fn lemma_last_assignment_wins(
    cfg: ConfigMap,
    lines: Seq<Seq<char>>,
    at: int,
    key: ConfigKey,
)
    requires
        0 <= at < lines.len(),
        sets(lines[at], key),
        forall|j: int| at < j < lines.len() ==> !sets(#[trigger] lines[j], key),
    ensures
        apply_lines(cfg, lines)[key] == suffix(lines[at], ASSIGN),
    decreases lines.len(),
{
    if at < lines.len() - 1 {
        let head = lines.drop_last();
        assert(!sets(lines[lines.len() - 1], key));
        lemma_last_assignment_wins(cfg, head, at, key);
    }
}

/// Where two lines set the same variable and no line after the second one
/// sets it again, the variable has the value of the second.
pub proof fn lemma_later_assignment_wins(
    cfg: ConfigMap,
    lines: Seq<Seq<char>>,
    earlier: int,
    later: int,
    key: ConfigKey,
)
    requires
        0 <= earlier < later < lines.len(),
        sets(lines[earlier], key),
        sets(lines[later], key),
        forall|j: int| later < j < lines.len() ==> !sets(#[trigger] lines[j], key),
    ensures
        apply_lines(cfg, lines)[key] == suffix(lines[later], ASSIGN),
{
    lemma_last_assignment_wins(cfg, lines, later, key);
}

/// A variable that no line sets keeps the value it had; in a description
/// read from the start that is the empty value.
pub proof fn lemma_unset_key_keeps_value(cfg: ConfigMap, lines: Seq<Seq<char>>, key: ConfigKey)
    requires
        forall|j: int| 0 <= j < lines.len() ==> !sets(#[trigger] lines[j], key),
    ensures
        apply_lines(cfg, lines)[key] == cfg[key],
        apply_lines(empty_config(), lines)[key] == Seq::<char>::empty(),
    decreases lines.len(),
{
    if lines.len() > 0 {
        let head = lines.drop_last();
        assert(!sets(lines[lines.len() - 1], key));
        lemma_unset_key_keeps_value(cfg, head, key);
        lemma_unset_key_keeps_value(empty_config(), head, key);
    }
}

/// Reading never takes a variable away: one that has a value before has a
/// value after. So every variable has a value in what a text describes.
pub proof fn lemma_every_key_present(cfg: ConfigMap, lines: Seq<Seq<char>>, key: ConfigKey)
    ensures
        cfg.dom().contains(key) ==> apply_lines(cfg, lines).dom().contains(key),
        apply_lines(empty_config(), lines).dom().contains(key),
    decreases lines.len(),
{
    if lines.len() > 0 {
        lemma_every_key_present(cfg, lines.drop_last(), key);
        lemma_every_key_present(empty_config(), lines.drop_last(), key);
    }
}

/// A description that is the one line `K = value`, with any white space but
/// a line feed before `K`, around `=` and after `value`, sets the variable
/// named `K` to `value` and no other variable.
pub proof fn lemma_single_assignment(
    key: ConfigKey,
    lead: Seq<char>,
    mid: Seq<char>,
    pad: Seq<char>,
    value: Seq<char>,
    trail: Seq<char>,
)
    requires
        all_space(lead),
        all_space(mid),
        all_space(pad),
        all_space(trail),
        value.len() > 0,
        trimmed(value),
        !(lead + mid + pad + value + trail).contains(LINE_FEED),
    ensures
        parse_text(lead + key_name(key) + mid + seq![ASSIGN] + pad + value + trail)
            == empty_config().insert(key, value),
{
    let name = key_name(key);
    let line = lead + name + mid + seq![ASSIGN] + pad + value + trail;
    let rest = lead + mid + pad + value + trail;
    lemma_key_name_plain(key);
    lemma_padded_assignment(key, lead, mid, pad, value, trail);
    assert(!line.contains(LINE_FEED)) by {
        if line.contains(LINE_FEED) {
            let i = choose|i: int| 0 <= i < line.len() && line[i] == LINE_FEED;
            let a = lead.len() as int;
            let b = a + name.len();
            let c = b + mid.len();
            if i < a {
                assert(rest[i] == line[i]);
            } else if i < b {
                assert(line[i] == name[i - a]);
                assert(is_space(LINE_FEED));
            } else if i < c {
                assert(rest[i - name.len()] == line[i]);
            } else if i == c {
                assert(line[i] == ASSIGN);
            } else {
                assert(rest[i - name.len() - 1] == line[i]);
            }
        }
    }
    lemma_first_index_found(line, LINE_FEED);
    let lines = split(line, LINE_FEED);
    assert(lines =~= seq![line]);
    assert(lines.drop_last() =~= Seq::<Seq<char>>::empty());
    assert(apply_lines(empty_config(), lines) == apply_line(
        apply_lines(empty_config(), lines.drop_last()),
        lines.last(),
    ));
}

/// A text made of lines, one line feed between each two, describes what
/// reading those lines in order gives.
pub proof fn lemma_parse_joined(lines: Seq<Seq<char>>)
    requires
        forall|i: int| 0 <= i < lines.len() ==> !(#[trigger] lines[i]).contains(LINE_FEED),
    ensures
        parse_text(join(lines, LINE_FEED)) == apply_lines(empty_config(), lines),
{
    if lines.len() == 0 {
        let blank = Seq::<char>::empty();
        assert(join(lines, LINE_FEED) == blank);
        assert(split(blank, LINE_FEED) =~= seq![blank]);
        lemma_ignored_line(blank);
        assert(seq![blank].drop_last() =~= lines);
        assert(seq![blank].last() == blank);
        assert(apply_lines(empty_config(), seq![blank]) == apply_line(
            apply_lines(empty_config(), lines),
            blank,
        ));
    } else {
        lemma_split_join(lines, LINE_FEED);
    }
}

impl ConfigKey {
    /// The name of the variable, as it is written in a build description.
    pub fn name(self) -> (r: &'static str)
        ensures
            r@ == key_name(self),
    {
        match self {
            ConfigKey::OutDir => "OUT_DIR",
            ConfigKey::AsmFiles => "ASM_FILES",
            ConfigKey::LinkScript => "LINK_SCRIPT",
            ConfigKey::OutObj => "OUT_OBJ",
            ConfigKey::OutImg => "OUT_IMG",
            ConfigKey::LinkObj => "LINK_OBJ",
        }
    }

    /// The variable with the name `name`; `None` for any other text.
    pub fn from_name(name: &str) -> (r: Option<ConfigKey>)
        ensures
            r == key_of(name@),
    {
        if same_text(name, ConfigKey::OutDir.name()) {
            Some(ConfigKey::OutDir)
        } else if same_text(name, ConfigKey::AsmFiles.name()) {
            Some(ConfigKey::AsmFiles)
        } else if same_text(name, ConfigKey::LinkScript.name()) {
            Some(ConfigKey::LinkScript)
        } else if same_text(name, ConfigKey::OutObj.name()) {
            Some(ConfigKey::OutObj)
        } else if same_text(name, ConfigKey::OutImg.name()) {
            Some(ConfigKey::OutImg)
        } else if same_text(name, ConfigKey::LinkObj.name()) {
            Some(ConfigKey::LinkObj)
        } else {
            None
        }
    }
}

/// The part of `line` before its first `sep`, trimmed.
fn prefix_slice<'a>(line: &'a [char], sep: char) -> (r: &'a [char])
    ensures
        r@ == prefix(line@, sep),
{
    let at = find_char(line, sep);
    if at < line.len() {
        trim_slice(slice_subrange(line, 0, at))
    } else {
        slice_subrange(line, 0, 0)
    }
}

/// The part of `line` after its first `sep`, trimmed.
fn suffix_slice<'a>(line: &'a [char], sep: char) -> (r: &'a [char])
    ensures
        r@ == suffix(line@, sep),
{
    let at = find_char(line, sep);
    if at < line.len() {
        trim_slice(slice_subrange(line, at + 1, line.len()))
    } else {
        slice_subrange(line, 0, 0)
    }
}

/// What `line` holds before its first `sep`, without the white space around
/// it. Empty when `line` holds no `sep`.
pub fn prefix_before(line: &str, sep: char) -> (r: String)
    ensures
        r@ == prefix(line@, sep),
{
    let chars = chars_of(line);
    string_of(prefix_slice(chars.as_slice(), sep))
}

/// What `line` holds after its first `sep`, without the white space around
/// it. Empty when `line` holds no `sep`.
pub fn suffix_after(line: &str, sep: char) -> (r: String)
    ensures
        r@ == suffix(line@, sep),
{
    let chars = chars_of(line);
    string_of(suffix_slice(chars.as_slice(), sep))
}

/// The values of the six variables of one build. A variable that the
/// description did not set has the empty value.
#[derive(Debug, PartialEq, Eq)]
pub struct BuildConfig {
    out_dir: String,
    asm_files: String,
    link_script: String,
    out_obj: String,
    out_img: String,
    link_obj: String,
}

impl View for BuildConfig {
    type V = ConfigMap;

    closed spec fn view(&self) -> ConfigMap {
        Map::total(
            |key: ConfigKey|
                match key {
                    ConfigKey::OutDir => self.out_dir@,
                    ConfigKey::AsmFiles => self.asm_files@,
                    ConfigKey::LinkScript => self.link_script@,
                    ConfigKey::OutObj => self.out_obj@,
                    ConfigKey::OutImg => self.out_img@,
                    ConfigKey::LinkObj => self.link_obj@,
                },
        )
    }
}

impl BuildConfig {
    /// Every variable has a value.
    pub proof fn lemma_total(&self)
        ensures
            forall|key: ConfigKey| self@.dom().contains(key),
    {
    }

    /// The configuration in which no variable is set.
    pub fn new() -> (cfg: BuildConfig)
        ensures
            cfg@ == empty_config(),
    {
        let cfg = BuildConfig {
            out_dir: String::new(),
            asm_files: String::new(),
            link_script: String::new(),
            out_obj: String::new(),
            out_img: String::new(),
            link_obj: String::new(),
        };
        assert(cfg@ =~= empty_config());
        cfg
    }

    /// The value of `key`; empty when it was not set.
    pub fn get(&self, key: ConfigKey) -> (value: &str)
        ensures
            value@ == self@[key],
    {
        match key {
            ConfigKey::OutDir => self.out_dir.as_str(),
            ConfigKey::AsmFiles => self.asm_files.as_str(),
            ConfigKey::LinkScript => self.link_script.as_str(),
            ConfigKey::OutObj => self.out_obj.as_str(),
            ConfigKey::OutImg => self.out_img.as_str(),
            ConfigKey::LinkObj => self.link_obj.as_str(),
        }
    }

    /// Gives `key` the value `value` and leaves the other variables as they
    /// are.
    pub fn set(&mut self, key: ConfigKey, value: String)
        ensures
            final(self)@ == old(self)@.insert(key, value@),
    {
        match key {
            ConfigKey::OutDir => { self.out_dir = value; },
            ConfigKey::AsmFiles => { self.asm_files = value; },
            ConfigKey::LinkScript => { self.link_script = value; },
            ConfigKey::OutObj => { self.out_obj = value; },
            ConfigKey::OutImg => { self.out_img = value; },
            ConfigKey::LinkObj => { self.link_obj = value; },
        }
        assert(self@ =~= old(self)@.insert(key, value@));
    }

    /// Reads one line: where it sets one of the six variables to a value
    /// that is not empty, the variable gets that value; any other line
    /// changes nothing.
    pub fn read_line(&mut self, line: &[char])
        ensures
            final(self)@ == apply_line(old(self)@, line@),
    {
        let name = string_of(prefix_slice(line, ASSIGN));
        let value = suffix_slice(line, ASSIGN);
        match ConfigKey::from_name(name.as_str()) {
            Some(key) => {
                if value.len() > 0 {
                    self.set(key, string_of(value));
                }
            },
            None => {},
        }
    }

    /// The configuration that `text` describes.
    pub fn parse(text: &str) -> (cfg: BuildConfig)
        ensures
            cfg@ == parse_text(text@),
    {
        let chars = chars_of(text);
        let lines = split_slice(chars.as_slice(), LINE_FEED);
        let mut cfg = BuildConfig::new();
        let mut i: usize = 0;
        while i < lines.len()
            invariant
                i <= lines.len(),
                cfg@ == apply_lines(empty_config(), views(lines@).take(i as int)),
            decreases lines.len() - i,
        {
            cfg.read_line(lines[i]);
            proof {
                let read = views(lines@).take(i + 1);
                assert(read.drop_last() =~= views(lines@).take(i as int));
                assert(read.last() == lines[i as int]@);
            }
            i += 1;
        }
        assert(views(lines@).take(i as int) =~= views(lines@));
        cfg
    }
}

/// Why no configuration could be had.
#[derive(Debug, PartialEq, Eq, Structural, Clone, Copy)]
pub enum ParseError {
    /// The build description is missing or cannot be read.
    NotFound,
}

/// The configuration of a build, from what reading its description gave:
/// `Some` with the text that was read, `None` where the file is missing or
/// unreadable. A missing description is an error, never an empty
/// configuration.
pub fn read_env(contents: Option<&str>) -> (r: Result<BuildConfig, ParseError>)
    ensures
        match contents {
            Some(text) => r matches Ok(cfg) && cfg@ == parse_text(text@),
            None => r == Err::<BuildConfig, ParseError>(ParseError::NotFound),
        },
{
    match contents {
        Some(text) => Ok(BuildConfig::parse(text)),
        None => Err(ParseError::NotFound),
    }
}

} // verus!
