//! Where uploads go: region, bucket and the prefix under which keys are
//! built, with the rules that each of them has to meet.

use vstd::prelude::*;
use crate::text::{
    byte_len, byte_length, chars_of, contains, contains_char, contains_text, decimal,
    digits_value, push_decimal, push_range, push_str, split, split_chars, string_of, texts_of,
    trim_end_char, trim_end_char_len, trim_start_matches, trim_start_matches_pos,
};

verus! {

/// The rule that a setting breaks.
#[derive(Debug, Clone, Copy, PartialEq, Eq, Structural)]
pub enum ConfigRule {
    /// No region is set.
    MissingRegion,
    EmptyRegion,
    /// The region holds no hyphen.
    RegionFormat,
    /// No bucket is set.
    MissingBucket,
    EmptyBucket,
    /// The bucket's name is shorter than 3 bytes or longer than 63; `length` is its length.
    BucketLength { length: usize },
    /// The name does not begin with a lowercase letter or a digit.
    BucketStart,
    /// The name does not end with a lowercase letter or a digit.
    BucketEnd,
    /// The name holds `found`, which is no lowercase letter, digit, hyphen or period.
    BucketCharacter { found: char },
    BucketConsecutivePeriods,
    /// The name reads as four or any other number of numbers below 256, set apart by periods.
    BucketIpAddress,
    PathConsecutiveSlashes,
    /// The prefix holds `..`.
    PathParentReference,
    /// The prefix begins with `/`.
    PathAbsolute,
}

/// A setting that was refused: the rule it breaks, and the setting as given
/// (empty where none was given).
#[derive(Debug, Clone)]
pub struct ConfigError {
    pub rule: ConfigRule,
    pub value: String,
}

/// Configuration of the uploads.
#[derive(Debug, Clone)]
pub struct Config {
    pub region: String,
    pub profile: Option<String>,
    pub bucket: String,
    pub target_path: String,
}

/// A lowercase letter `a` to `z` or a digit.
pub open spec fn is_lower_or_digit(c: char) -> bool {
    'a' <= c <= 'z' || '0' <= c <= '9'
}

/// A character that a bucket's name may hold.
pub open spec fn is_bucket_char(c: char) -> bool {
    is_lower_or_digit(c) || c == '-' || c == '.'
}

/// The first character of `s` that a bucket's name may not hold.
pub open spec fn first_unfit(s: Seq<char>) -> Option<char>
    decreases s.len(),
{
    if s.len() == 0 {
        None
    } else if !is_bucket_char(s.first()) {
        Some(s.first())
    } else {
        first_unfit(s.drop_first())
    }
}

/// `s` is made of decimal digits, at least one, and writes a number below
/// 256. Of the characters that a bucket's name may hold, these are the texts
/// that parse as a `u8`.
pub open spec fn is_octet(s: Seq<char>) -> bool {
    &&& s.len() > 0
    &&& forall|i: int| 0 <= i < s.len() ==> '0' <= #[trigger] s[i] <= '9'
    &&& digits_value(s) <= 255
}

/// Every piece that the periods set apart is an octet: the name has the form
/// of an IP address.
pub open spec fn is_ip_formatted(bucket: Seq<char>) -> bool {
    forall|i: int| 0 <= i < split(bucket, '.').len() ==> is_octet(#[trigger] split(bucket, '.')[i])
}

/// The rule that `region` breaks, if any.
pub open spec fn region_fault(region: Seq<char>) -> Option<ConfigRule> {
    if region.len() == 0 {
        Some(ConfigRule::EmptyRegion)
    } else if !region.contains('-') {
        Some(ConfigRule::RegionFormat)
    } else {
        None
    }
}

/// The first rule that `bucket` breaks, if any, in the order in which the
/// rules are held against it.
pub open spec fn bucket_fault(bucket: Seq<char>) -> Option<ConfigRule> {
    if bucket.len() == 0 {
        Some(ConfigRule::EmptyBucket)
    } else if byte_len(bucket) < 3 || byte_len(bucket) > 63 {
        Some(ConfigRule::BucketLength { length: byte_len(bucket) as usize })
    } else if !is_lower_or_digit(bucket.first()) {
        Some(ConfigRule::BucketStart)
    } else if !is_lower_or_digit(bucket.last()) {
        Some(ConfigRule::BucketEnd)
    } else if first_unfit(bucket) is Some {
        Some(ConfigRule::BucketCharacter { found: first_unfit(bucket)->0 })
    } else if contains(bucket, ".."@) {
        Some(ConfigRule::BucketConsecutivePeriods)
    } else if is_ip_formatted(bucket) {
        Some(ConfigRule::BucketIpAddress)
    } else {
        None
    }
}

/// The first rule that the key prefix `path` breaks, if any. The empty
/// prefix breaks none.
pub open spec fn path_fault(path: Seq<char>) -> Option<ConfigRule> {
    if path.len() == 0 {
        None
    } else if contains(path, "//"@) {
        Some(ConfigRule::PathConsecutiveSlashes)
    } else if contains(path, ".."@) {
        Some(ConfigRule::PathParentReference)
    } else if path.first() == '/' {
        Some(ConfigRule::PathAbsolute)
    } else {
        None
    }
}

/// The key of the object for the file at `relative_path`: the path without
/// any leading `./`, behind the prefix and a slash. A prefix loses the slashes
/// at its end; the empty prefix adds nothing.
pub open spec fn s3_key(target_path: Seq<char>, relative_path: Seq<char>) -> Seq<char> {
    let path = trim_start_matches(relative_path, "./"@);
    if target_path.len() == 0 {
        path
    } else {
        trim_end_char(target_path, '/') + "/"@ + path
    }
}

/// The key of the object for the file at `relative_path` under a prefix
/// given for one run: the prefix without the slashes at its end, a slash,
/// and the path without any leading `./`. The slash is set behind the empty
/// prefix too.
pub open spec fn prefixed_key(prefix: Seq<char>, relative_path: Seq<char>) -> Seq<char> {
    trim_end_char(prefix, '/') + "/"@ + trim_start_matches(relative_path, "./"@)
}

/// The key for one run: under the run's own prefix where it has one, which
/// leaves the configuration as it is, and under the configured one otherwise.
pub open spec fn run_key(
    target_path: Seq<char>,
    prefix: Option<Seq<char>>,
    relative_path: Seq<char>,
) -> Seq<char> {
    match prefix {
        Some(prefix) => prefixed_key(prefix, relative_path),
        None => s3_key(target_path, relative_path),
    }
}

fn lower_or_digit(c: char) -> (fit: bool)
    ensures
        fit == is_lower_or_digit(c),
{
    ('a' <= c && c <= 'z') || ('0' <= c && c <= '9')
}

fn find_unfit(s: &Vec<char>) -> (found: Option<char>)
    ensures
        found == first_unfit(s@),
{
    let mut i: usize = 0;
    assert(s@.skip(0) == s@);
    while i < s.len()
        invariant
            i <= s.len(),
            first_unfit(s@.skip(i as int)) == first_unfit(s@),
        decreases s.len() - i,
    {
        let c = s[i];
        if !(lower_or_digit(c) || c == '-' || c == '.') {
            return Some(c);
        }
        assert(s@.skip(i as int).drop_first() == s@.skip(i + 1));
        i += 1;
    }
    None
}

fn octet(s: &Vec<char>) -> (fit: bool)
    ensures
        fit == is_octet(s@),
{
    if s.len() == 0 {
        return false;
    }
    let mut value: u32 = 0;
    let mut i: usize = 0;
    assert(s@.take(0) == Seq::<char>::empty());
    while i < s.len()
        invariant
            i <= s.len(),
            forall|k: int| 0 <= k < i ==> '0' <= #[trigger] s@[k] <= '9',
            value <= 256,
            value == if digits_value(s@.take(i as int)) < 256 {
                digits_value(s@.take(i as int))
            } else {
                256
            },
        decreases s.len() - i,
    {
        let c = s[i];
        if !('0' <= c && c <= '9') {
            return false;
        }
        assert(s@.take(i + 1).drop_last() == s@.take(i as int));
        let next: u32 = value * 10 + (c as u32 - '0' as u32);
        value = if next > 256 {
            256
        } else {
            next
        };
        i += 1;
    }
    assert(s@.take(s.len() as int) == s@);
    value <= 255
}

fn ip_formatted(bucket: &Vec<char>) -> (fit: bool)
    ensures
        fit == is_ip_formatted(bucket@),
{
    let pieces = split_chars(bucket, '.');
    let mut i: usize = 0;
    while i < pieces.len()
        invariant
            i <= pieces.len(),
            texts_of(pieces@) == split(bucket@, '.'),
            forall|k: int| 0 <= k < i ==> is_octet(#[trigger] split(bucket@, '.')[k]),
        decreases pieces.len() - i,
    {
        assert(texts_of(pieces@)[i as int] == pieces@[i as int]@);
        if !octet(&pieces[i]) {
            return false;
        }
        i += 1;
    }
    true
}

impl Config {
    /// Holds a region against its rules.
    pub fn validate_region(region: &str) -> (result: Result<(), ConfigError>)
        ensures
            match region_fault(region@) {
                None => result is Ok,
                Some(rule) => result matches Err(error) && error.rule == rule && error.value@
                    == region@,
            },
    {
        let text = chars_of(region);
        if text.len() == 0 {
            return Err(ConfigError { rule: ConfigRule::EmptyRegion, value: string_of(&text) });
        }
        if !contains_char(&text, '-') {
            return Err(ConfigError { rule: ConfigRule::RegionFormat, value: string_of(&text) });
        }
        Ok(())
    }

    /// Holds a bucket's name against the naming rules, one after the other;
    /// the first broken rule is reported.
    pub fn validate_bucket_name(bucket: &str) -> (result: Result<(), ConfigError>)
        ensures
            match bucket_fault(bucket@) {
                None => result is Ok,
                Some(rule) => result matches Err(error) && error.rule == rule && error.value@
                    == bucket@,
            },
    {
        let text = chars_of(bucket);
        let length = byte_length(bucket);
        let fault: Option<ConfigRule> = if text.len() == 0 {
            Some(ConfigRule::EmptyBucket)
        } else if length < 3 || length > 63 {
            Some(ConfigRule::BucketLength { length })
        } else if !lower_or_digit(text[0]) {
            Some(ConfigRule::BucketStart)
        } else if !lower_or_digit(text[text.len() - 1]) {
            Some(ConfigRule::BucketEnd)
        } else {
            match find_unfit(&text) {
                Some(found) => Some(ConfigRule::BucketCharacter { found }),
                None => {
                    if contains_text(&text, "..") {
                        Some(ConfigRule::BucketConsecutivePeriods)
                    } else if ip_formatted(&text) {
                        Some(ConfigRule::BucketIpAddress)
                    } else {
                        None
                    }
                },
            }
        };
        match fault {
            Some(rule) => Err(ConfigError { rule, value: string_of(&text) }),
            None => Ok(()),
        }
    }

    /// Holds a key prefix against its rules; the first broken rule is reported.
    pub fn validate_target_path(path: &str) -> (result: Result<(), ConfigError>)
        ensures
            match path_fault(path@) {
                None => result is Ok,
                Some(rule) => result matches Err(error) && error.rule == rule && error.value@
                    == path@,
            },
    {
        let text = chars_of(path);
        let fault: Option<ConfigRule> = if text.len() == 0 {
            None
        } else if contains_text(&text, "//") {
            Some(ConfigRule::PathConsecutiveSlashes)
        } else if contains_text(&text, "..") {
            Some(ConfigRule::PathParentReference)
        } else if text[0] == '/' {
            Some(ConfigRule::PathAbsolute)
        } else {
            None
        };
        match fault {
            Some(rule) => Err(ConfigError { rule, value: string_of(&text) }),
            None => Ok(()),
        }
    }

    /// The key under which the file at `relative_path` is stored.
    pub fn build_s3_key(&self, relative_path: &str) -> (key: String)
        ensures
            key@ == s3_key(self.target_path@, relative_path@),
    {
        let relative = chars_of(relative_path);
        let marker = chars_of("./");
        proof {
            reveal_strlit("./");
        }
        let start = trim_start_matches_pos(&relative, &marker);
        let target = chars_of(self.target_path.as_str());
        let mut key: Vec<char> = Vec::new();
        if target.len() > 0 {
            let end = trim_end_char_len(&target, '/');
            push_range(&mut key, &target, 0, end);
            assert(target@.subrange(0, end as int) == target@.take(end as int));
            push_str(&mut key, "/");
        }
        assert(relative@.subrange(start as int, relative@.len() as int) == relative@.skip(
            start as int,
        ));
        push_range(&mut key, &relative, start, relative.len());
        string_of(&key)
    }

    /// The key under which the file at `relative_path` is stored in a run
    /// that may have a prefix of its own.
    pub fn build_run_key(&self, prefix: Option<&str>, relative_path: &str) -> (key: String)
        ensures
            key@ == run_key(
                self.target_path@,
                match prefix {
                    Some(prefix) => Some(prefix@),
                    None => None,
                },
                relative_path@,
            ),
    {
        match prefix {
            None => self.build_s3_key(relative_path),
            Some(prefix) => {
                let relative = chars_of(relative_path);
                let marker = chars_of("./");
                proof {
                    reveal_strlit("./");
                }
                let start = trim_start_matches_pos(&relative, &marker);
                let front = chars_of(prefix);
                let end = trim_end_char_len(&front, '/');
                let mut key: Vec<char> = Vec::new();
                push_range(&mut key, &front, 0, end);
                assert(front@.subrange(0, end as int) == front@.take(end as int));
                push_str(&mut key, "/");
                assert(relative@.subrange(start as int, relative@.len() as int)
                    == relative@.skip(start as int));
                push_range(&mut key, &relative, start, relative.len());
                string_of(&key)
            },
        }
    }
}

/// What is said of a setting `value` that breaks `rule`.
pub open spec fn fault_text(rule: ConfigRule, value: Seq<char>) -> Seq<char> {
    match rule {
        ConfigRule::MissingRegion => "AWS_REGION not found in environment. Please set it in .env file"@,
        ConfigRule::EmptyRegion => "AWS_REGION cannot be empty"@,
        ConfigRule::RegionFormat => "AWS_REGION '"@ + value
            + "' doesn't look like a valid region (e.g., us-west-2, eu-west-1)"@,
        ConfigRule::MissingBucket => "S3_BUCKET not found in environment. Please set it in .env file"@,
        ConfigRule::EmptyBucket => "S3_BUCKET cannot be empty"@,
        ConfigRule::BucketLength { length } => "S3_BUCKET '"@ + value
            + "' must be between 3 and 63 characters (got "@ + decimal(length as nat) + ")"@,
        ConfigRule::BucketStart => "S3_BUCKET '"@ + value
            + "' must start with a lowercase letter or number"@,
        ConfigRule::BucketEnd => "S3_BUCKET '"@ + value
            + "' must end with a lowercase letter or number"@,
        ConfigRule::BucketCharacter { found } => "S3_BUCKET '"@ + value
            + "' contains invalid character '"@ + seq![found]
            + "'. Only lowercase letters, numbers, hyphens, and periods are allowed"@,
        ConfigRule::BucketConsecutivePeriods => "S3_BUCKET '"@ + value
            + "' cannot contain consecutive periods"@,
        ConfigRule::BucketIpAddress => "S3_BUCKET '"@ + value
            + "' cannot be formatted as an IP address"@,
        ConfigRule::PathConsecutiveSlashes => "S3_TARGET_PATH '"@ + value
            + "' contains consecutive slashes (not allowed)"@,
        ConfigRule::PathParentReference => "S3_TARGET_PATH '"@ + value
            + "' contains '..' (not allowed for security)"@,
        ConfigRule::PathAbsolute => "S3_TARGET_PATH '"@ + value
            + "' should not start with '/' (use relative path)"@,
    }
}

impl ConfigError {
    /// The refusal in words.
    pub fn message(&self) -> (text: String)
        ensures
            text@ == fault_text(self.rule, self.value@),
    {
        let mut out: Vec<char> = Vec::new();
        let value = self.value.as_str();
        match self.rule {
            ConfigRule::MissingRegion => {
                push_str(
                    &mut out,
                    "AWS_REGION not found in environment. Please set it in .env file",
                );
            },
            ConfigRule::EmptyRegion => {
                push_str(&mut out, "AWS_REGION cannot be empty");
            },
            ConfigRule::RegionFormat => {
                push_str(&mut out, "AWS_REGION '");
                push_str(&mut out, value);
                push_str(
                    &mut out,
                    "' doesn't look like a valid region (e.g., us-west-2, eu-west-1)",
                );
            },
            ConfigRule::MissingBucket => {
                push_str(
                    &mut out,
                    "S3_BUCKET not found in environment. Please set it in .env file",
                );
            },
            ConfigRule::EmptyBucket => {
                push_str(&mut out, "S3_BUCKET cannot be empty");
            },
            ConfigRule::BucketLength { length } => {
                push_str(&mut out, "S3_BUCKET '");
                push_str(&mut out, value);
                push_str(&mut out, "' must be between 3 and 63 characters (got ");
                push_decimal(&mut out, length as u64);
                push_str(&mut out, ")");
            },
            ConfigRule::BucketStart => {
                push_str(&mut out, "S3_BUCKET '");
                push_str(&mut out, value);
                push_str(&mut out, "' must start with a lowercase letter or number");
            },
            ConfigRule::BucketEnd => {
                push_str(&mut out, "S3_BUCKET '");
                push_str(&mut out, value);
                push_str(&mut out, "' must end with a lowercase letter or number");
            },
            ConfigRule::BucketCharacter { found } => {
                push_str(&mut out, "S3_BUCKET '");
                push_str(&mut out, value);
                push_str(&mut out, "' contains invalid character '");
                let ghost before = out@;
                out.push(found);
                assert(out@ == before + seq![found]);
                push_str(
                    &mut out,
                    "'. Only lowercase letters, numbers, hyphens, and periods are allowed",
                );
            },
            ConfigRule::BucketConsecutivePeriods => {
                push_str(&mut out, "S3_BUCKET '");
                push_str(&mut out, value);
                push_str(&mut out, "' cannot contain consecutive periods");
            },
            ConfigRule::BucketIpAddress => {
                push_str(&mut out, "S3_BUCKET '");
                push_str(&mut out, value);
                push_str(&mut out, "' cannot be formatted as an IP address");
            },
            ConfigRule::PathConsecutiveSlashes => {
                push_str(&mut out, "S3_TARGET_PATH '");
                push_str(&mut out, value);
                push_str(&mut out, "' contains consecutive slashes (not allowed)");
            },
            ConfigRule::PathParentReference => {
                push_str(&mut out, "S3_TARGET_PATH '");
                push_str(&mut out, value);
                push_str(&mut out, "' contains '..' (not allowed for security)");
            },
            ConfigRule::PathAbsolute => {
                push_str(&mut out, "S3_TARGET_PATH '");
                push_str(&mut out, value);
                push_str(&mut out, "' should not start with '/' (use relative path)");
            },
        }
        assert(Seq::<char>::empty() + fault_text(self.rule, self.value@) =~= fault_text(
            self.rule,
            self.value@,
        ));
        string_of(&out)
    }
}

/// A setting as a text, where there is one.
pub open spec fn setting_text(setting: Option<String>) -> Option<Seq<char>> {
    match setting {
        Some(text) => Some(text@),
        None => None,
    }
}

/// The first rule that the settings break, if any: the region is looked at
/// first, then the bucket, then the key prefix, where no prefix counts as the
/// empty one.
pub open spec fn settings_fault(
    region: Option<Seq<char>>,
    bucket: Option<Seq<char>>,
    target_path: Option<Seq<char>>,
) -> Option<(ConfigRule, Seq<char>)> {
    if region is None {
        Some((ConfigRule::MissingRegion, Seq::empty()))
    } else if region_fault(region->0) is Some {
        Some((region_fault(region->0)->0, region->0))
    } else if bucket is None {
        Some((ConfigRule::MissingBucket, Seq::empty()))
    } else if bucket_fault(bucket->0) is Some {
        Some((bucket_fault(bucket->0)->0, bucket->0))
    } else {
        let path = match target_path {
            Some(path) => path,
            None => Seq::empty(),
        };
        if path_fault(path) is Some {
            Some((path_fault(path)->0, path))
        } else {
            None
        }
    }
}

impl Config {
    /// The configuration made of the settings as they were found, each of
    /// them held against its rules. The profile is taken as it is.
    pub fn from_values(
        region: Option<String>,
        profile: Option<String>,
        bucket: Option<String>,
        target_path: Option<String>,
    ) -> (result: Result<Config, ConfigError>)
        ensures
            match settings_fault(
                setting_text(region),
                setting_text(bucket),
                setting_text(target_path),
            ) {
                Some((rule, value)) => result matches Err(error) && error.rule == rule
                    && error.value@ == value,
                None => result matches Ok(config) && config.region@ == region->0@
                    && config.profile == profile && config.bucket@ == bucket->0@
                    && config.target_path@ == match target_path {
                    Some(path) => path@,
                    None => Seq::empty(),
                },
            },
    {
        let region = match region {
            Some(region) => region,
            None => {
                return Err(ConfigError { rule: ConfigRule::MissingRegion, value: String::new() });
            },
        };
        match Config::validate_region(region.as_str()) {
            Err(error) => {
                return Err(error);
            },
            Ok(_) => {},
        }
        let bucket = match bucket {
            Some(bucket) => bucket,
            None => {
                return Err(ConfigError { rule: ConfigRule::MissingBucket, value: String::new() });
            },
        };
        match Config::validate_bucket_name(bucket.as_str()) {
            Err(error) => {
                return Err(error);
            },
            Ok(_) => {},
        }
        let target_path = match target_path {
            Some(path) => path,
            None => String::new(),
        };
        match Config::validate_target_path(target_path.as_str()) {
            Err(error) => {
                return Err(error);
            },
            Ok(_) => {},
        }
        Ok(Config { region, profile, bucket, target_path })
    }
}

} // verus!
