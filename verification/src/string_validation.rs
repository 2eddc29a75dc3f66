use vstd::prelude::*;

use crate::error::ContractError;
use crate::text::{
    chars_of, clone_strings, contains_chars, ends_with, has_infix, has_prefix, has_suffix, occurs_at,
    starts_with,
};

verus! {

/// Limits that a string must respect.
#[derive(Debug, PartialEq, Eq, Clone)]
pub struct StringValidationConfig {
    pub min_length: usize,
    pub max_length: usize,
    pub allow_numbers: bool,
    pub allow_uppercase: bool,
    pub allow_spaces: bool,
    pub allow_special_chars: bool,
    /// One of these must start the string (when the list is not empty).
    pub required_prefixes: Vec<String>,
    /// One of these must end the string (when the list is not empty).
    pub required_suffixes: Vec<String>,
    /// Every one of these must occur in the string.
    pub must_contain: Vec<String>,
}

/// The mathematical content of a [`StringValidationConfig`].
pub struct ConfigModel {
    pub min_length: nat,
    pub max_length: nat,
    pub allow_numbers: bool,
    pub allow_uppercase: bool,
    pub allow_spaces: bool,
    pub allow_special_chars: bool,
    pub required_prefixes: Seq<Seq<char>>,
    pub required_suffixes: Seq<Seq<char>>,
    pub must_contain: Seq<Seq<char>>,
}

/// The characters of each string of a list.
pub open spec fn strings_view(v: Seq<String>) -> Seq<Seq<char>> {
    v.map_values(|s: String| s@)
}

impl StringValidationConfig {
    pub open spec fn model(&self) -> ConfigModel {
        ConfigModel {
            min_length: self.min_length as nat,
            max_length: self.max_length as nat,
            allow_numbers: self.allow_numbers,
            allow_uppercase: self.allow_uppercase,
            allow_spaces: self.allow_spaces,
            allow_special_chars: self.allow_special_chars,
            required_prefixes: strings_view(self.required_prefixes@),
            required_suffixes: strings_view(self.required_suffixes@),
            must_contain: strings_view(self.must_contain@),
        }
    }
}

impl Default for StringValidationConfig {
    /// Lengths from 3 to 32, nothing but lower-case letters, no required
    /// prefixes, suffixes or contents.
    fn default() -> (r: Self)
        ensures
            r.min_length == 3,
            r.max_length == 32,
            !r.allow_numbers && !r.allow_uppercase && !r.allow_spaces && !r.allow_special_chars,
            r.required_prefixes@.len() == 0,
            r.required_suffixes@.len() == 0,
            r.must_contain@.len() == 0,
    {
        StringValidationConfig {
            min_length: 3,
            max_length: 32,
            allow_numbers: false,
            allow_uppercase: false,
            allow_spaces: false,
            allow_special_chars: false,
            required_prefixes: Vec::new(),
            required_suffixes: Vec::new(),
            must_contain: Vec::new(),
        }
    }
}

/// Why a string was refused.
#[derive(Debug, PartialEq, Eq)]
pub enum StringValidationError {
    InvalidLength { sent: String, min_length: usize, max_length: usize },
    InvalidPrefix { sent: String, required: Vec<String> },
    InvalidSuffix { sent: String, required: Vec<String> },
    InvalidMustContain { sent: String, required: Vec<String> },
    UppercaseNotAllowed { sent: String },
    NumbersNotAllowed { sent: String },
    SpacesNotAllowed { sent: String },
    SpecialCharsNotAllowed { sent: String },
}

/// The kinds of string that the contract checks.
#[derive(Debug, PartialEq, Eq, Clone, Copy)]
pub enum StringValidationType {
    Username,
    ChannelName,
    Description,
    Link,
    AssetName,
}

pub open spec fn http_prefix() -> Seq<char> {
    seq!['h', 't', 't', 'p', ':', '/', '/']
}

pub open spec fn https_prefix() -> Seq<char> {
    seq!['h', 't', 't', 'p', 's', ':', '/', '/']
}

pub open spec fn ipfs_prefix() -> Seq<char> {
    seq!['i', 'p', 'f', 's', ':', '/', '/']
}

/// A configuration with no prefix, suffix or substring requirement.
pub open spec fn plain_config(
    min_length: nat,
    max_length: nat,
    allow_numbers: bool,
    allow_uppercase: bool,
    allow_spaces: bool,
    allow_special_chars: bool,
) -> ConfigModel {
    ConfigModel {
        min_length,
        max_length,
        allow_numbers,
        allow_uppercase,
        allow_spaces,
        allow_special_chars,
        required_prefixes: Seq::empty(),
        required_suffixes: Seq::empty(),
        must_contain: Seq::empty(),
    }
}

/// The limits that each kind of string must respect.
pub open spec fn config_for(t: StringValidationType) -> ConfigModel {
    match t {
        StringValidationType::Username => plain_config(3, 32, false, false, false, false),
        StringValidationType::ChannelName => plain_config(3, 32, true, true, false, false),
        StringValidationType::Description => plain_config(3, 256, true, true, true, true),
        StringValidationType::Link => ConfigModel {
            required_prefixes: seq![http_prefix(), https_prefix(), ipfs_prefix()],
            must_contain: seq![seq!['.']],
            ..plain_config(3, 256, true, true, false, true)
        },
        StringValidationType::AssetName => plain_config(3, 64, true, true, true, false),
    }
}

pub open spec fn is_lower(c: char) -> bool {
    'a' <= c && c <= 'z'
}

pub open spec fn is_upper(c: char) -> bool {
    'A' <= c && c <= 'Z'
}

pub open spec fn is_digit(c: char) -> bool {
    '0' <= c && c <= '9'
}

/// A character rule that a string can break.
pub enum CharRule {
    Uppercase,
    Numbers,
    Spaces,
    SpecialChars,
}

/// The rule that character `c` breaks under `cfg`, if any. Lowercase ASCII letters
/// are always accepted; anything that is not an ASCII letter, digit or space is a
/// special character.
pub open spec fn char_violation(c: char, cfg: ConfigModel) -> Option<CharRule> {
    if is_lower(c) {
        None
    } else if is_upper(c) {
        if cfg.allow_uppercase { None } else { Some(CharRule::Uppercase) }
    } else if is_digit(c) {
        if cfg.allow_numbers { None } else { Some(CharRule::Numbers) }
    } else if c == ' ' {
        if cfg.allow_spaces { None } else { Some(CharRule::Spaces) }
    } else {
        if cfg.allow_special_chars { None } else { Some(CharRule::SpecialChars) }
    }
}

/// The rule broken by the first character of `s` that breaks one.
pub open spec fn first_char_violation(s: Seq<char>, cfg: ConfigModel) -> Option<CharRule>
    decreases s.len(),
{
    if s.len() == 0 {
        None
    } else {
        match char_violation(s[0], cfg) {
            Some(r) => Some(r),
            None => first_char_violation(s.drop_first(), cfg),
        }
    }
}

/// The first check that a string fails.
pub enum ValidationFailure {
    Length,
    Prefix,
    Suffix,
    MustContain,
    Char(CharRule),
}

/// The first failing check for a string with characters `s` and UTF-8 length
/// `byte_len`; `None` when the string is accepted. Checks run in this order:
/// length, prefixes, suffixes, required substrings, then the characters.
pub open spec fn validation_failure(s: Seq<char>, byte_len: nat, cfg: ConfigModel) -> Option<
    ValidationFailure,
> {
    if !(cfg.min_length <= byte_len && byte_len <= cfg.max_length) {
        Some(ValidationFailure::Length)
    } else if cfg.required_prefixes.len() > 0 && !(exists|i: int|
        0 <= i < cfg.required_prefixes.len() && has_prefix(s, #[trigger] cfg.required_prefixes[i])) {
        Some(ValidationFailure::Prefix)
    } else if cfg.required_suffixes.len() > 0 && !(exists|i: int|
        0 <= i < cfg.required_suffixes.len() && has_suffix(s, #[trigger] cfg.required_suffixes[i])) {
        Some(ValidationFailure::Suffix)
    } else if exists|i: int|
        0 <= i < cfg.must_contain.len() && !has_infix(s, #[trigger] cfg.must_contain[i]) {
        Some(ValidationFailure::MustContain)
    } else {
        match first_char_violation(s, cfg) {
            Some(r) => Some(ValidationFailure::Char(r)),
            None => None,
        }
    }
}

/// Whether a string of kind `t` with characters `s` and UTF-8 length `byte_len`
/// is accepted.
pub open spec fn accepts(t: StringValidationType, s: Seq<char>, byte_len: nat) -> bool {
    validation_failure(s, byte_len, config_for(t)) is None
}

/// `e` is the error reported for failure `f` of string `s` under `cfg`.
pub open spec fn describes(e: StringValidationError, f: ValidationFailure, s: Seq<char>, cfg: ConfigModel) -> bool {
    match f {
        ValidationFailure::Length => e matches StringValidationError::InvalidLength {
            sent,
            min_length,
            max_length,
        } && sent@ == s && min_length == cfg.min_length && max_length == cfg.max_length,
        ValidationFailure::Prefix => e matches StringValidationError::InvalidPrefix { sent, required }
            && sent@ == s && strings_view(required@) == cfg.required_prefixes,
        ValidationFailure::Suffix => e matches StringValidationError::InvalidSuffix { sent, required }
            && sent@ == s && strings_view(required@) == cfg.required_suffixes,
        ValidationFailure::MustContain => e matches StringValidationError::InvalidMustContain {
            sent,
            required,
        } && sent@ == s && strings_view(required@) == cfg.must_contain,
        ValidationFailure::Char(CharRule::Uppercase) => e matches StringValidationError::UppercaseNotAllowed {
            sent,
        } && sent@ == s,
        ValidationFailure::Char(CharRule::Numbers) => e matches StringValidationError::NumbersNotAllowed {
            sent,
        } && sent@ == s,
        ValidationFailure::Char(CharRule::Spaces) => e matches StringValidationError::SpacesNotAllowed {
            sent,
        } && sent@ == s,
        ValidationFailure::Char(CharRule::SpecialChars) => e matches StringValidationError::SpecialCharsNotAllowed {
            sent,
        } && sent@ == s,
    }
}

/// An empty list of strings.
fn no_strings() -> (r: Vec<String>)
    ensures
        strings_view(r@) == Seq::<Seq<char>>::empty(),
{
    let v: Vec<String> = Vec::new();
    assert(strings_view(v@) =~= Seq::<Seq<char>>::empty());
    v
}

/// A list of strings whose characters are `lits`, one per literal.
fn string_list(a: &str, b: &str, c: &str) -> (r: Vec<String>)
    ensures
        strings_view(r@) == seq![a@, b@, c@],
{
    let mut v: Vec<String> = Vec::new();
    v.push(a.to_owned());
    v.push(b.to_owned());
    v.push(c.to_owned());
    assert(strings_view(v@) =~= seq![a@, b@, c@]);
    v
}

impl StringValidationType {
    /// The limits for this kind of string.
    pub fn get_config(&self) -> (r: StringValidationConfig)
        ensures
            r.model() == config_for(*self),
    {
        match self {
            StringValidationType::Username => StringValidationConfig {
                min_length: 3,
                max_length: 32,
                allow_numbers: false,
                allow_uppercase: false,
                allow_spaces: false,
                allow_special_chars: false,
                required_prefixes: no_strings(),
                required_suffixes: no_strings(),
                must_contain: no_strings(),
            },
            StringValidationType::ChannelName => StringValidationConfig {
                min_length: 3,
                max_length: 32,
                allow_numbers: true,
                allow_uppercase: true,
                allow_spaces: false,
                allow_special_chars: false,
                required_prefixes: no_strings(),
                required_suffixes: no_strings(),
                must_contain: no_strings(),
            },
            StringValidationType::Description => StringValidationConfig {
                min_length: 3,
                max_length: 256,
                allow_numbers: true,
                allow_uppercase: true,
                allow_spaces: true,
                allow_special_chars: true,
                required_prefixes: no_strings(),
                required_suffixes: no_strings(),
                must_contain: no_strings(),
            },
            StringValidationType::Link => {
                let prefixes = string_list("http://", "https://", "ipfs://");
                let mut dot: Vec<String> = Vec::new();
                dot.push(".".to_owned());
                proof {
                    reveal_strlit("http://");
                    reveal_strlit("https://");
                    reveal_strlit("ipfs://");
                    reveal_strlit(".");
                    assert(".".view() =~= seq!['.']);
                    assert(strings_view(dot@) =~= seq![seq!['.']]);
                    assert("http://".view() =~= http_prefix());
                    assert("https://".view() =~= https_prefix());
                    assert("ipfs://".view() =~= ipfs_prefix());
                }
                StringValidationConfig {
                    min_length: 3,
                    max_length: 256,
                    allow_numbers: true,
                    allow_uppercase: true,
                    allow_spaces: false,
                    allow_special_chars: true,
                    required_prefixes: prefixes,
                    required_suffixes: no_strings(),
                    must_contain: dot,
                }
            },
            StringValidationType::AssetName => StringValidationConfig {
                min_length: 3,
                max_length: 64,
                allow_numbers: true,
                allow_uppercase: true,
                allow_spaces: true,
                allow_special_chars: false,
                required_prefixes: no_strings(),
                required_suffixes: no_strings(),
                must_contain: no_strings(),
            },
        }
    }
}


/// Skipping past a character that breaks no rule does not change the first rule broken.
proof fn lemma_first_violation_step(s: Seq<char>, i: int, cfg: ConfigModel)
    requires
        0 <= i < s.len(),
        char_violation(s[i], cfg) is None,
    ensures
        first_char_violation(s.skip(i), cfg) == first_char_violation(s.skip(i + 1), cfg),
{
    assert(s.skip(i).drop_first() =~= s.skip(i + 1));
}

/// The rule that character `c` breaks under `cfg`, if any.
fn check_char(c: char, cfg: &StringValidationConfig) -> (r: Option<CharRule>)
    ensures
        r == char_violation(c, cfg.model()),
{
    if 'a' <= c && c <= 'z' {
        None
    } else if 'A' <= c && c <= 'Z' {
        if cfg.allow_uppercase { None } else { Some(CharRule::Uppercase) }
    } else if '0' <= c && c <= '9' {
        if cfg.allow_numbers { None } else { Some(CharRule::Numbers) }
    } else if c == ' ' {
        if cfg.allow_spaces { None } else { Some(CharRule::Spaces) }
    } else {
        if cfg.allow_special_chars { None } else { Some(CharRule::SpecialChars) }
    }
}

/// Whether some string of `list` starts (when `at_end` is false) or ends (when
/// it is true) the string `s`.
fn any_affix(s: &Vec<char>, list: &Vec<String>, at_end: bool) -> (r: bool)
    ensures
        !at_end ==> (r <==> exists|i: int|
            0 <= i < list@.len() && has_prefix(s@, #[trigger] strings_view(list@)[i])),
        at_end ==> (r <==> exists|i: int|
            0 <= i < list@.len() && has_suffix(s@, #[trigger] strings_view(list@)[i])),
{
    let mut i: usize = 0;
    while i < list.len()
        invariant
            i <= list@.len(),
            forall|j: int| 0 <= j < i ==> !at_end ==> !has_prefix(s@, #[trigger] strings_view(list@)[j]),
            forall|j: int| 0 <= j < i ==> at_end ==> !has_suffix(s@, #[trigger] strings_view(list@)[j]),
        decreases list@.len() - i,
    {
        let p = chars_of(list[i].as_str());
        let hit = if at_end { ends_with(s, &p) } else { starts_with(s, &p) };
        if hit {
            assert(strings_view(list@)[i as int] == p@);
            return true;
        }
        i = i + 1;
    }
    false
}

/// The index of the first string of `list` that does not occur in `s`.
fn first_missing(s: &Vec<char>, list: &Vec<String>) -> (r: Option<usize>)
    ensures
        r is None <==> forall|i: int|
            0 <= i < list@.len() ==> has_infix(s@, #[trigger] strings_view(list@)[i]),
        r matches Some(k) ==> k < list@.len() && !has_infix(s@, strings_view(list@)[k as int]),
{
    let mut i: usize = 0;
    while i < list.len()
        invariant
            i <= list@.len(),
            forall|j: int| 0 <= j < i ==> has_infix(s@, #[trigger] strings_view(list@)[j]),
        decreases list@.len() - i,
    {
        let p = chars_of(list[i].as_str());
        if !contains_chars(s, &p) {
            assert(!has_infix(s@, strings_view(list@)[i as int]));
            return Some(i);
        }
        i = i + 1;
    }
    None
}

/// Checks `input` against the limits for its kind: its UTF-8 length, then the
/// required prefixes, suffixes and substrings, then each character in order.
/// The error names the first check that fails.
pub fn validate_string(input: &str, validation_type: StringValidationType) -> (r: Result<(), ContractError>)
    ensures
        r is Ok <==> accepts(validation_type, input@, input.len() as nat),
        r matches Err(e) ==> e matches ContractError::StringValidationError(sve) && describes(
            sve,
            validation_failure(input@, input.len() as nat, config_for(validation_type))->0,
            input@,
            config_for(validation_type),
        ),
{
    let config = validation_type.get_config();
    let ghost cfg = config.model();
    let len = input.len();
    if !(config.min_length <= len && len <= config.max_length) {
        return Err(
            ContractError::StringValidationError(
                StringValidationError::InvalidLength {
                    sent: input.to_owned(),
                    min_length: config.min_length,
                    max_length: config.max_length,
                },
            ),
        );
    }
    let chars = chars_of(input);
    assert(cfg.required_prefixes == strings_view(config.required_prefixes@));
    assert(cfg.required_suffixes == strings_view(config.required_suffixes@));
    assert(cfg.must_contain == strings_view(config.must_contain@));
    assert(cfg == config_for(validation_type));
    assert(chars@ == input@);
    if config.required_prefixes.len() > 0 {
        if !any_affix(&chars, &config.required_prefixes, false) {
            assert(!(exists|i: int|
                0 <= i < cfg.required_prefixes.len() && has_prefix(input@, #[trigger] cfg.required_prefixes[i])));
            assert(validation_failure(input@, input.len() as nat, cfg) == Some(ValidationFailure::Prefix));
            return Err(
                ContractError::StringValidationError(
                    StringValidationError::InvalidPrefix {
                        sent: input.to_owned(),
                        required: clone_strings(&config.required_prefixes),
                    },
                ),
            );
        }
    }
    if config.required_suffixes.len() > 0 {
        if !any_affix(&chars, &config.required_suffixes, true) {
            return Err(
                ContractError::StringValidationError(
                    StringValidationError::InvalidSuffix {
                        sent: input.to_owned(),
                        required: clone_strings(&config.required_suffixes),
                    },
                ),
            );
        }
    }
    match first_missing(&chars, &config.must_contain) {
        Some(k) => {
            assert(!has_infix(chars@, cfg.must_contain[k as int]));
            return Err(
                ContractError::StringValidationError(
                    StringValidationError::InvalidMustContain {
                        sent: input.to_owned(),
                        required: clone_strings(&config.must_contain),
                    },
                ),
            );
        },
        None => {},
    }
    let n = chars.len();
    let mut i: usize = 0;
    assert(chars@.skip(0) =~= chars@);
    assert(validation_failure(input@, input.len() as nat, cfg) == match first_char_violation(chars@, cfg) {
        Some(r) => Some(ValidationFailure::Char(r)),
        None => None,
    });
    while i < n
        invariant
            n == chars@.len(),
            i <= n,
            cfg == config.model(),
            cfg == config_for(validation_type),
            chars@ == input@,
            validation_failure(input@, input.len() as nat, cfg) == match first_char_violation(chars@, cfg) {
                Some(r) => Some(ValidationFailure::Char(r)),
                None => None,
            },
            first_char_violation(chars@, cfg) == first_char_violation(chars@.skip(i as int), cfg),
        decreases n - i,
    {
        let c = chars[i];
        match check_char(c, &config) {
            Some(rule) => {
                assert(chars@.skip(i as int)[0] == c);
                let sent = input.to_owned();
                return Err(
                    ContractError::StringValidationError(
                        match rule {
                            CharRule::Uppercase => StringValidationError::UppercaseNotAllowed { sent },
                            CharRule::Numbers => StringValidationError::NumbersNotAllowed { sent },
                            CharRule::Spaces => StringValidationError::SpacesNotAllowed { sent },
                            CharRule::SpecialChars => StringValidationError::SpecialCharsNotAllowed { sent },
                        },
                    ),
                );
            },
            None => {
                proof {
                    lemma_first_violation_step(chars@, i as int, cfg);
                }
            },
        }
        i = i + 1;
    }
    assert(chars@.skip(n as int).len() == 0);
    Ok(())
}


/// `b` accepts every character that `a` accepts.
pub open spec fn chars_at_least_as_permissive(a: ConfigModel, b: ConfigModel) -> bool {
    &&& a.allow_numbers ==> b.allow_numbers
    &&& a.allow_uppercase ==> b.allow_uppercase
    &&& a.allow_spaces ==> b.allow_spaces
    &&& a.allow_special_chars ==> b.allow_special_chars
}

proof fn lemma_char_rules_monotone(s: Seq<char>, a: ConfigModel, b: ConfigModel)
    requires
        chars_at_least_as_permissive(a, b),
        first_char_violation(s, a) is None,
    ensures
        first_char_violation(s, b) is None,
    decreases s.len(),
{
    if s.len() > 0 {
        lemma_char_rules_monotone(s.drop_first(), a, b);
    }
}

/// Every valid username is a valid channel name.
pub proof fn lemma_username_is_channel_name(s: Seq<char>, byte_len: nat)
    requires
        accepts(StringValidationType::Username, s, byte_len),
    ensures
        accepts(StringValidationType::ChannelName, s, byte_len),
{
    lemma_char_rules_monotone(
        s,
        config_for(StringValidationType::Username),
        config_for(StringValidationType::ChannelName),
    );
}

/// Every valid channel name is a valid asset name.
pub proof fn lemma_channel_name_is_asset_name(s: Seq<char>, byte_len: nat)
    requires
        accepts(StringValidationType::ChannelName, s, byte_len),
    ensures
        accepts(StringValidationType::AssetName, s, byte_len),
{
    lemma_char_rules_monotone(
        s,
        config_for(StringValidationType::ChannelName),
        config_for(StringValidationType::AssetName),
    );
}

/// Every valid asset name is a valid description.
pub proof fn lemma_asset_name_is_description(s: Seq<char>, byte_len: nat)
    requires
        accepts(StringValidationType::AssetName, s, byte_len),
    ensures
        accepts(StringValidationType::Description, s, byte_len),
{
    lemma_char_rules_monotone(
        s,
        config_for(StringValidationType::AssetName),
        config_for(StringValidationType::Description),
    );
}

/// Every valid link starts with "http://", "https://" or "ipfs://", contains a
/// dot and has no space.
pub proof fn lemma_link_shape(s: Seq<char>, byte_len: nat)
    requires
        accepts(StringValidationType::Link, s, byte_len),
    ensures
        has_prefix(s, http_prefix()) || has_prefix(s, https_prefix()) || has_prefix(s, ipfs_prefix()),
        has_infix(s, seq!['.']),
        !s.contains(' '),
{
    let cfg = config_for(StringValidationType::Link);
    assert(cfg.must_contain[0] == seq!['.']);
    let i = choose|i: int| 0 <= i < cfg.required_prefixes.len() && has_prefix(s, #[trigger] cfg.required_prefixes[i]);
    assert(i == 0 || i == 1 || i == 2);
    lemma_no_space(s, cfg);
}

proof fn lemma_no_space(s: Seq<char>, cfg: ConfigModel)
    requires
        !cfg.allow_spaces,
        first_char_violation(s, cfg) is None,
    ensures
        !s.contains(' '),
    decreases s.len(),
{
    if s.len() > 0 {
        lemma_no_space(s.drop_first(), cfg);
        assert forall|i: int| 0 <= i < s.len() implies s[i] != ' ' by {
            if i > 0 {
                assert(s[i] == s.drop_first()[i - 1]);
            }
        }
    }
}

/// No character of `s` breaks a rule of `cfg` exactly when every character
/// satisfies `ok`, given that `ok` holds of exactly the characters that break none.
proof fn lemma_chars_ok(s: Seq<char>, cfg: ConfigModel, ok: spec_fn(char) -> bool)
    requires
        forall|c: char| #[trigger] char_violation(c, cfg) is None <==> ok(c),
    ensures
        first_char_violation(s, cfg) is None <==> forall|i: int| 0 <= i < s.len() ==> ok(#[trigger] s[i]),
    decreases s.len(),
{
    if s.len() > 0 {
        lemma_chars_ok(s.drop_first(), cfg, ok);
        assert(char_violation(s[0], cfg) is None <==> ok(s[0]));
        if forall|i: int| 0 <= i < s.len() ==> ok(#[trigger] s[i]) {
            assert forall|i: int| 0 <= i < s.drop_first().len() implies ok(#[trigger] s.drop_first()[i]) by {
                assert(s.drop_first()[i] == s[i + 1]);
            }
        }
        if first_char_violation(s, cfg) is None {
            assert forall|i: int| 0 <= i < s.len() implies ok(#[trigger] s[i]) by {
                if i > 0 {
                    assert(s[i] == s.drop_first()[i - 1]);
                }
            }
        }
    }
}

/// `s` contains the string "." exactly when it contains a dot.
proof fn lemma_dot_infix(s: Seq<char>)
    ensures
        has_infix(s, seq!['.']) <==> s.contains('.'),
{
    if s.contains('.') {
        let i = choose|i: int| 0 <= i < s.len() && s[i] == '.';
        assert(s.subrange(i, i + 1) =~= seq!['.']);
        assert(occurs_at(s, seq!['.'], i));
    }
    if has_infix(s, seq!['.']) {
        let i = choose|i: int| occurs_at(s, seq!['.'], i);
        assert(s.subrange(i, i + 1)[0] == s[i]);
        assert(s[i] == '.');
    }
}

/// A username is accepted exactly when it is 3 to 32 bytes long and made of
/// lower-case ASCII letters only: no upper-case letter, digit, space or other
/// character.
pub proof fn law_username_rules(s: Seq<char>, byte_len: nat)
    ensures
        accepts(StringValidationType::Username, s, byte_len) <==> (3 <= byte_len <= 32 && forall|i: int|
            0 <= i < s.len() ==> 'a' <= #[trigger] s[i] && s[i] <= 'z'),
{
    let cfg = config_for(StringValidationType::Username);
    lemma_chars_ok(s, cfg, |c: char| 'a' <= c && c <= 'z');
}

/// A channel name is accepted exactly when it is 3 to 32 bytes long and made of
/// ASCII letters (either case) and digits only.
pub proof fn law_channel_name_rules(s: Seq<char>, byte_len: nat)
    ensures
        accepts(StringValidationType::ChannelName, s, byte_len) <==> (3 <= byte_len <= 32 && forall|i: int|
            0 <= i < s.len() ==> ('a' <= #[trigger] s[i] && s[i] <= 'z') || ('A' <= s[i] && s[i] <= 'Z') || ('0'
                <= s[i] && s[i] <= '9')),
{
    let cfg = config_for(StringValidationType::ChannelName);
    lemma_chars_ok(
        s,
        cfg,
        |c: char| ('a' <= c && c <= 'z') || ('A' <= c && c <= 'Z') || ('0' <= c && c <= '9'),
    );
}

/// A description is accepted exactly when it is 3 to 256 bytes long, whatever
/// its characters: letters of either case, digits, spaces and punctuation.
pub proof fn law_description_rules(s: Seq<char>, byte_len: nat)
    ensures
        accepts(StringValidationType::Description, s, byte_len) <==> 3 <= byte_len <= 256,
{
    let cfg = config_for(StringValidationType::Description);
    lemma_chars_ok(s, cfg, |c: char| true);
}

/// An asset or playlist name is accepted exactly when it is 3 to 64 bytes long
/// and made of ASCII letters (either case), digits and spaces only.
pub proof fn law_asset_name_rules(s: Seq<char>, byte_len: nat)
    ensures
        accepts(StringValidationType::AssetName, s, byte_len) <==> (3 <= byte_len <= 64 && forall|i: int|
            0 <= i < s.len() ==> ('a' <= #[trigger] s[i] && s[i] <= 'z') || ('A' <= s[i] && s[i] <= 'Z') || ('0'
                <= s[i] && s[i] <= '9') || s[i] == ' '),
{
    let cfg = config_for(StringValidationType::AssetName);
    lemma_chars_ok(
        s,
        cfg,
        |c: char| ('a' <= c && c <= 'z') || ('A' <= c && c <= 'Z') || ('0' <= c && c <= '9') || c == ' ',
    );
}

/// A link is accepted exactly when it is 3 to 256 bytes long, starts with
/// "http://", "https://" or "ipfs://", contains a dot and has no space; letters
/// of either case, digits and other characters are all allowed.
pub proof fn law_link_rules(s: Seq<char>, byte_len: nat)
    ensures
        accepts(StringValidationType::Link, s, byte_len) <==> {
            &&& 3 <= byte_len <= 256
            &&& has_prefix(s, seq!['h', 't', 't', 'p', ':', '/', '/']) || has_prefix(
                s,
                seq!['h', 't', 't', 'p', 's', ':', '/', '/'],
            ) || has_prefix(s, seq!['i', 'p', 'f', 's', ':', '/', '/'])
            &&& s.contains('.')
            &&& forall|i: int| 0 <= i < s.len() ==> #[trigger] s[i] != ' '
        },
{
    let cfg = config_for(StringValidationType::Link);
    lemma_chars_ok(s, cfg, |c: char| c != ' ');
    lemma_dot_infix(s);
    let ps = cfg.required_prefixes;
    assert(ps[0] == seq!['h', 't', 't', 'p', ':', '/', '/']);
    assert(ps[1] == seq!['h', 't', 't', 'p', 's', ':', '/', '/']);
    assert(ps[2] == seq!['i', 'p', 'f', 's', ':', '/', '/']);
    assert(cfg.must_contain[0] == seq!['.']);
    if has_prefix(s, ps[0]) || has_prefix(s, ps[1]) || has_prefix(s, ps[2]) {
        assert(exists|i: int| 0 <= i < ps.len() && has_prefix(s, #[trigger] ps[i]));
    }
    if exists|i: int| 0 <= i < ps.len() && has_prefix(s, #[trigger] ps[i]) {
        let i = choose|i: int| 0 <= i < ps.len() && has_prefix(s, #[trigger] ps[i]);
        assert(i == 0 || i == 1 || i == 2);
    }
    if !has_infix(s, seq!['.']) {
        assert(!has_infix(s, cfg.must_contain[0]));
    }
}

} // verus!
