//! Making images for every pairing of a theme with a prompt: the size of the
//! images, the names of their files, and the order in which they are made.

use vstd::prelude::*;
use crate::text::{chars_of, decimal, is_text, push_decimal, push_str, slice_of, string_of};

verus! {

/// Number of requests that may be under way at a time.
pub const MAX_CONCURRENT_REQUESTS: usize = 32;

/// Number of characters of a digest that a file's name carries.
pub const HASH_CHARS: usize = 6;

/// One theme: a name, which is also that of its directory, and what it asks
/// of every image.
#[derive(Debug, Clone)]
pub struct Theme {
    pub name: String,
    pub instructions: String,
}

/// One prompt.
#[derive(Debug, Clone)]
pub struct Prompt {
    pub name: String,
    pub prompt: String,
}

/// What is to be made: images for every theme with every prompt.
#[derive(Debug, Clone)]
pub struct Config {
    pub system_prompt: String,
    pub style: String,
    pub themes: Vec<Theme>,
    pub prompts: Vec<Prompt>,
}

/// One image to make.
#[derive(Debug, Clone)]
pub struct ImageTask {
    pub theme_name: String,
    pub prompt_name: String,
    pub full_prompt: String,
    /// Name of the image's file within the theme's directory.
    pub file_name: String,
    pub hash: String,
    pub size: String,
}

/// The BLAKE3 digest of `data` in lowercase hexadecimal.
pub uninterp spec fn blake3_hex(data: Seq<u8>) -> Seq<char>;

/// `text` as the slug crate's `slugify` makes it fit for a file name.
pub uninterp spec fn slug_of(text: Seq<char>) -> Seq<char>;

/// `blake3::hash` of the blake3 crate, written out by `Hash::to_hex`: the
/// digest of the bytes, which is 32 bytes long, in 64 hexadecimal digits.
#[verifier::external_body]
fn blake3_digest(data: &[u8]) -> (hex: String)
    ensures
        hex@ == blake3_hex(data@),
        hex@.len() == 64,
{
    blake3::hash(data).to_hex().to_string()
}

/// `slugify` of the slug crate. What it returns depends on the text alone.
#[verifier::external_body]
fn slugify(text: &str) -> (slug: String)
    ensures
        slug@ == slug_of(text@),
{
    slug::slugify(text)
}

/// The size of the images for a style, as width by height: landscape and
/// portrait have their own, every other style gives a square.
pub open spec fn image_size_of(style: Seq<char>) -> Seq<char> {
    if style == "square"@ {
        "1024x1024"@
    } else if style == "landscape"@ {
        "1536x1024"@
    } else if style == "portrait"@ {
        "1024x1536"@
    } else {
        "1024x1024"@
    }
}

/// What identifies an image: the first characters of the digest of all that
/// goes into its making.
pub open spec fn short_hash(
    system_prompt: Seq<char>,
    theme_instruction: Seq<char>,
    prompt: Seq<char>,
) -> Seq<char> {
    blake3_hex(vstd::utf8::encode_utf8(system_prompt + theme_instruction + prompt)).take(
        HASH_CHARS as int,
    )
}

/// The name of an image's file, given the slug of the prompt's name.
pub open spec fn file_name_of(slug: Seq<char>, hash: Seq<char>) -> Seq<char> {
    slug + "-"@ + hash + ".png"@
}

/// What the service is asked to draw.
pub open spec fn full_prompt_of(
    system_prompt: Seq<char>,
    theme_instruction: Seq<char>,
    prompt: Seq<char>,
) -> Seq<char> {
    system_prompt + "\n\n"@ + theme_instruction + "\n\n"@ + prompt
}

impl Config {
    /// The size of the images.
    pub fn get_image_size(&self) -> (size: &'static str)
        ensures
            size@ == image_size_of(self.style@),
    {
        let style = chars_of(self.style.as_str());
        if is_text(&style, "square") {
            "1024x1024"
        } else if is_text(&style, "landscape") {
            "1536x1024"
        } else if is_text(&style, "portrait") {
            "1024x1536"
        } else {
            "1024x1024"
        }
    }
}

/// What identifies the image for a system prompt, a theme and a prompt.
pub fn calculate_hash(system_prompt: &str, theme_instruction: &str, prompt: &str) -> (hash: String)
    ensures
        hash@ == short_hash(system_prompt@, theme_instruction@, prompt@),
        hash@.len() == HASH_CHARS,
{
    let mut combined: Vec<char> = Vec::new();
    push_str(&mut combined, system_prompt);
    push_str(&mut combined, theme_instruction);
    push_str(&mut combined, prompt);
    assert(combined@ == system_prompt@ + theme_instruction@ + prompt@);
    let text = string_of(&combined);
    let hex = blake3_digest(text.as_str().as_bytes());
    let digits = chars_of(hex.as_str());
    let short = slice_of(&digits, 0, HASH_CHARS);
    assert(digits@.subrange(0, HASH_CHARS as int) == digits@.take(HASH_CHARS as int));
    string_of(&short)
}

/// The name of an image's file, given the slug of the prompt's name.
pub fn output_filename_for(slug: &str, hash: &str) -> (name: String)
    ensures
        name@ == file_name_of(slug@, hash@),
{
    let mut out: Vec<char> = Vec::new();
    push_str(&mut out, slug);
    push_str(&mut out, "-");
    push_str(&mut out, hash);
    push_str(&mut out, ".png");
    assert(Seq::<char>::empty() + file_name_of(slug@, hash@) =~= file_name_of(slug@, hash@));
    string_of(&out)
}

/// The name of the file for the image of the prompt called `prompt_name`.
pub fn create_output_filename(prompt_name: &str, hash: &str) -> (name: String)
    ensures
        name@ == file_name_of(slug_of(prompt_name@), hash@),
{
    let slug = slugify(prompt_name);
    output_filename_for(slug.as_str(), hash)
}

/// What the service is asked to draw.
pub fn full_prompt(system_prompt: &str, theme_instruction: &str, prompt: &str) -> (text: String)
    ensures
        text@ == full_prompt_of(system_prompt@, theme_instruction@, prompt@),
{
    let mut out: Vec<char> = Vec::new();
    push_str(&mut out, system_prompt);
    push_str(&mut out, "\n\n");
    push_str(&mut out, theme_instruction);
    push_str(&mut out, "\n\n");
    push_str(&mut out, prompt);
    assert(Seq::<char>::empty() + full_prompt_of(system_prompt@, theme_instruction@, prompt@)
        =~= full_prompt_of(system_prompt@, theme_instruction@, prompt@));
    string_of(&out)
}

/// `task` is the image of `theme` with `prompt`, as `config` has it made.
pub open spec fn is_task_of(task: ImageTask, config: Config, theme: Theme, prompt: Prompt) -> bool {
    &&& task.theme_name@ == theme.name@
    &&& task.prompt_name@ == prompt.name@
    &&& task.full_prompt@ == full_prompt_of(
        config.system_prompt@,
        theme.instructions@,
        prompt.prompt@,
    )
    &&& task.hash@ == short_hash(config.system_prompt@, theme.instructions@, prompt.prompt@)
    &&& task.file_name@ == file_name_of(slug_of(prompt.name@), task.hash@)
    &&& task.size@ == image_size_of(config.style@)
}

/// The images of one theme: one for every prompt, in the prompts' order.
pub fn theme_tasks(config: &Config, theme: &Theme) -> (tasks: Vec<ImageTask>)
    ensures
        tasks@.len() == config.prompts@.len(),
        forall|i: int|
            0 <= i < tasks@.len() ==> is_task_of(
                #[trigger] tasks@[i],
                *config,
                *theme,
                config.prompts@[i],
            ),
{
    let mut tasks: Vec<ImageTask> = Vec::new();
    let mut i: usize = 0;
    while i < config.prompts.len()
        invariant
            i <= config.prompts.len(),
            tasks@.len() == i,
            forall|k: int|
                0 <= k < i ==> is_task_of(#[trigger] tasks@[k], *config, *theme, config.prompts@[k]),
        decreases config.prompts.len() - i,
    {
        let prompt = &config.prompts[i];
        let hash = calculate_hash(
            config.system_prompt.as_str(),
            theme.instructions.as_str(),
            prompt.prompt.as_str(),
        );
        let file_name = create_output_filename(prompt.name.as_str(), hash.as_str());
        tasks.push(
            ImageTask {
                theme_name: theme.name.clone(),
                prompt_name: prompt.name.clone(),
                full_prompt: full_prompt(
                    config.system_prompt.as_str(),
                    theme.instructions.as_str(),
                    prompt.prompt.as_str(),
                ),
                file_name,
                hash,
                size: string_of(&chars_of(config.get_image_size())),
            },
        );
        i += 1;
    }
    tasks
}

/// The positions of the images that are still to be made: those that are
/// not `present`, in ascending order.
pub open spec fn pending_of(present: Seq<bool>) -> Seq<usize>
    decreases present.len(),
{
    if present.len() == 0 {
        Seq::empty()
    } else if present.last() {
        pending_of(present.drop_last())
    } else {
        pending_of(present.drop_last()).push((present.len() - 1) as usize)
    }
}

/// The positions of the images that are still to be made.
pub fn pending(present: &Vec<bool>) -> (positions: Vec<usize>)
    ensures
        positions@ == pending_of(present@),
{
    let mut positions: Vec<usize> = Vec::new();
    let mut i: usize = 0;
    assert(present@.take(0) == Seq::<bool>::empty());
    while i < present.len()
        invariant
            i <= present.len(),
            positions@ == pending_of(present@.take(i as int)),
        decreases present.len() - i,
    {
        assert(present@.take(i + 1).drop_last() == present@.take(i as int));
        if !present[i] {
            positions.push(i);
        }
        i += 1;
    }
    assert(present@.take(present@.len() as int) == present@);
    positions
}

/// Round `round` of the making: the themes that have an image left for it,
/// in their order, each with the position `round` among its images.
pub open spec fn round_of(counts: Seq<usize>, round: usize) -> Seq<(usize, usize)>
    decreases counts.len(),
{
    if counts.len() == 0 {
        Seq::empty()
    } else if round < counts.last() {
        round_of(counts.drop_last(), round).push(((counts.len() - 1) as usize, round))
    } else {
        round_of(counts.drop_last(), round)
    }
}

/// The first `rounds` rounds, one after the other.
pub open spec fn rounds_of(counts: Seq<usize>, rounds: usize) -> Seq<(usize, usize)>
    decreases rounds,
{
    if rounds == 0 {
        Seq::empty()
    } else {
        rounds_of(counts, (rounds - 1) as usize) + round_of(counts, (rounds - 1) as usize)
    }
}

/// The largest of `counts`, or zero where there is none.
pub open spec fn largest(counts: Seq<usize>) -> usize
    decreases counts.len(),
{
    if counts.len() == 0 {
        0
    } else if counts.last() > largest(counts.drop_last()) {
        counts.last()
    } else {
        largest(counts.drop_last())
    }
}

/// The order in which the images are made, so that the themes take turns:
/// first every theme's first image, then every theme's second, and so on,
/// until the theme with the most images has had its last. Each entry names a
/// theme by its position and an image by its position within the theme.
pub open spec fn interleaved(counts: Seq<usize>) -> Seq<(usize, usize)> {
    rounds_of(counts, largest(counts))
}

proof fn lemma_round_holds(counts: Seq<usize>, round: usize, theme: usize, at: usize)
    requires
        counts.len() <= usize::MAX,
    ensures
        round_of(counts, round).contains((theme, at)) <==> at == round && theme < counts.len()
            && round < counts[theme as int],
    decreases counts.len(),
{
    let this = round_of(counts, round);
    if counts.len() > 0 {
        let rest = counts.drop_last();
        let before = round_of(rest, round);
        lemma_round_holds(rest, round, theme, at);
        let last = (counts.len() - 1) as usize;
        if round < counts.last() {
            assert(this == before.push((last, round)));
            if this.contains((theme, at)) {
                let k = choose|k: int| 0 <= k < this.len() && this[k] == (theme, at);
                if k < before.len() {
                    assert(before[k] == (theme, at));
                    assert(before.contains((theme, at)));
                }
            }
            if at == round && theme < counts.len() && round < counts[theme as int] {
                if theme == last {
                    assert(this[this.len() - 1] == (theme, at));
                } else {
                    assert(rest[theme as int] == counts[theme as int]);
                    let k = choose|k: int| 0 <= k < before.len() && before[k] == (theme, at);
                    assert(this[k] == (theme, at));
                }
            }
        } else {
            if at == round && theme < counts.len() && round < counts[theme as int] {
                assert(rest[theme as int] == counts[theme as int]);
            }
        }
        if this.contains((theme, at)) && theme < rest.len() {
            assert(rest[theme as int] == counts[theme as int]);
        }
    }
}

proof fn lemma_rounds_hold(counts: Seq<usize>, rounds: usize, theme: usize, at: usize)
    requires
        counts.len() <= usize::MAX,
    ensures
        rounds_of(counts, rounds).contains((theme, at)) <==> at < rounds && theme < counts.len()
            && at < counts[theme as int],
    decreases rounds,
{
    if rounds > 0 {
        let earlier = rounds_of(counts, (rounds - 1) as usize);
        let latest = round_of(counts, (rounds - 1) as usize);
        let all = rounds_of(counts, rounds);
        lemma_rounds_hold(counts, (rounds - 1) as usize, theme, at);
        lemma_round_holds(counts, (rounds - 1) as usize, theme, at);
        assert(all == earlier + latest);
        if all.contains((theme, at)) {
            let k = choose|k: int| 0 <= k < all.len() && all[k] == (theme, at);
            if k < earlier.len() {
                assert(earlier[k] == (theme, at));
                assert(earlier.contains((theme, at)));
            } else {
                assert(latest[k - earlier.len()] == (theme, at));
                assert(latest.contains((theme, at)));
            }
        }
        if earlier.contains((theme, at)) {
            let k = choose|k: int| 0 <= k < earlier.len() && earlier[k] == (theme, at);
            assert(all[k] == (theme, at));
        }
        if latest.contains((theme, at)) {
            let k = choose|k: int| 0 <= k < latest.len() && latest[k] == (theme, at);
            assert(all[earlier.len() + k] == (theme, at));
        }
    }
}

proof fn lemma_largest_bounds(counts: Seq<usize>, theme: int)
    requires
        0 <= theme < counts.len(),
    ensures
        counts[theme] <= largest(counts),
    decreases counts.len(),
{
    if theme < counts.len() - 1 {
        lemma_largest_bounds(counts.drop_last(), theme);
    }
}

/// The order holds the images that the themes have, and no others: image
/// `at` of theme `theme` is in it exactly if the theme has that many images.
/// The themes are as many as a vector can hold.
pub proof fn lemma_interleaved_covers(counts: Seq<usize>, theme: usize, at: usize)
    requires
        counts.len() <= usize::MAX,
    ensures
        interleaved(counts).contains((theme, at)) <==> theme < counts.len() && at
            < counts[theme as int],
{
    lemma_rounds_hold(counts, largest(counts), theme, at);
    if theme < counts.len() {
        lemma_largest_bounds(counts, theme as int);
    }
}

/// The positions returned are those of the images that are not there yet.
/// The images are as many as a vector can hold.
pub proof fn lemma_pending_covers(present: Seq<bool>, at: usize)
    requires
        present.len() <= usize::MAX,
    ensures
        pending_of(present).contains(at) <==> at < present.len() && !present[at as int],
    decreases present.len(),
{
    let this = pending_of(present);
    if present.len() > 0 {
        let rest = present.drop_last();
        let before = pending_of(rest);
        lemma_pending_covers(rest, at);
        let last = (present.len() - 1) as usize;
        if at < rest.len() {
            assert(rest[at as int] == present[at as int]);
        }
        if !present.last() {
            assert(this == before.push(last));
            if this.contains(at) {
                let k = choose|k: int| 0 <= k < this.len() && this[k] == at;
                if k < before.len() {
                    assert(before[k] == at);
                    assert(before.contains(at));
                }
            }
            if before.contains(at) {
                let k = choose|k: int| 0 <= k < before.len() && before[k] == at;
                assert(this[k] == at);
            }
            if at == last {
                assert(this[this.len() - 1] == at);
            }
        }
    }
}

/// The largest of `counts`.
pub fn largest_count(counts: &Vec<usize>) -> (most: usize)
    ensures
        most == largest(counts@),
{
    let mut most: usize = 0;
    let mut i: usize = 0;
    assert(counts@.take(0) == Seq::<usize>::empty());
    while i < counts.len()
        invariant
            i <= counts.len(),
            most == largest(counts@.take(i as int)),
        decreases counts.len() - i,
    {
        assert(counts@.take(i + 1).drop_last() == counts@.take(i as int));
        if counts[i] > most {
            most = counts[i];
        }
        i += 1;
    }
    assert(counts@.take(counts@.len() as int) == counts@);
    most
}

/// The order in which the images are made, given how many images each theme has.
pub fn interleave_order(counts: &Vec<usize>) -> (order: Vec<(usize, usize)>)
    ensures
        order@ == interleaved(counts@),
{
    let rounds = largest_count(counts);
    let mut order: Vec<(usize, usize)> = Vec::new();
    let mut round: usize = 0;
    while round < rounds
        invariant
            round <= rounds,
            order@ == rounds_of(counts@, round),
        decreases rounds - round,
    {
        let ghost before = order@;
        let mut theme: usize = 0;
        assert(counts@.take(0) == Seq::<usize>::empty());
        while theme < counts.len()
            invariant
                theme <= counts.len(),
                order@ == before + round_of(counts@.take(theme as int), round),
            decreases counts.len() - theme,
        {
            assert(counts@.take(theme + 1).drop_last() == counts@.take(theme as int));
            if round < counts[theme] {
                order.push((theme, round));
            }
            theme += 1;
        }
        assert(counts@.take(counts@.len() as int) == counts@);
        round += 1;
    }
    order
}

/// The last line of the report on a run.
pub open spec fn summary_text(made: usize, failed: usize) -> Seq<char> {
    if failed == 0 {
        "\u{1f389} All "@ + decimal(made as nat) + " images generated successfully!"@
    } else {
        "\u{1f389} Image generation completed! Success: "@ + decimal(made as nat) + ", Failed: "@
            + decimal(failed as nat)
    }
}

/// The last line of the report on a run in which `made` images were made and
/// `failed` were not.
pub fn summary_line(made: usize, failed: usize) -> (line: String)
    ensures
        line@ == summary_text(made, failed),
{
    let mut out: Vec<char> = Vec::new();
    if failed == 0 {
        push_str(&mut out, "\u{1f389} All ");
        push_decimal(&mut out, made as u64);
        push_str(&mut out, " images generated successfully!");
    } else {
        push_str(&mut out, "\u{1f389} Image generation completed! Success: ");
        push_decimal(&mut out, made as u64);
        push_str(&mut out, ", Failed: ");
        push_decimal(&mut out, failed as u64);
    }
    assert(Seq::<char>::empty() + summary_text(made, failed) =~= summary_text(made, failed));
    string_of(&out)
}

} // verus!
