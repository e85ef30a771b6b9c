//! The prompts sent to the language model.
use vstd::prelude::*;

verus! {

/// The prompt that asks for a solution: the system instructions, then the
/// question.
pub fn code_generation_prompt(system_prompt: &str, question: &str) -> (p: String)
    ensures
        p@ == "System Instructions:\n"@ + system_prompt@ + "\n\nUser Question:\n"@ + question@,
{
    let mut p = String::from_str("System Instructions:\n");
    p.append(system_prompt);
    p.append("\n\nUser Question:\n");
    p.append(question);
    p
}

/// Each file as a headed section: `--- name ---`, its content, a blank line.
pub open spec fn file_sections(files: Seq<(Seq<char>, Seq<char>)>) -> Seq<char>
    decreases files.len(),
{
    if files.len() == 0 {
        Seq::empty()
    } else {
        file_sections(files.drop_last()) + "--- "@ + files.last().0 + " ---\n"@ + files.last().1
            + "\n\n"@
    }
}

pub open spec fn files_view(files: Seq<(&str, &str)>) -> Seq<(Seq<char>, Seq<char>)> {
    files.map_values(|f: (&str, &str)| (f.0@, f.1@))
}

pub open spec fn input_prompt_head() -> Seq<char> {
    "Analyze the following code files and generate appropriate standard input (stdin) that would successfully execute or test this code.\n\n"@
}

pub open spec fn input_prompt_tail() -> Seq<char> {
    "Based on the code above, generate ONLY the exact raw text that should be passed to stdin. Do not include markdown formatting or explanations. The output must be ready to pipe directly into the program.\n"@
}

/// The prompt that asks for standard input for the given `(name, content)`
/// files.
pub fn input_generation_prompt(files: &[(&str, &str)]) -> (p: String)
    ensures
        p@ == input_prompt_head() + file_sections(files_view(files@)) + input_prompt_tail(),
{
    let ghost fv = files_view(files@);
    let mut p = String::from_str(
        "Analyze the following code files and generate appropriate standard input (stdin) that would successfully execute or test this code.\n\n",
    );
    let mut i: usize = 0;
    proof {
        assert(fv.take(0) =~= Seq::<(Seq<char>, Seq<char>)>::empty());
    }
    while i < files.len()
        invariant
            i <= files@.len(),
            fv == files_view(files@),
            p@ == input_prompt_head() + file_sections(fv.take(i as int)),
        decreases files@.len() - i,
    {
        let (name, content) = files[i];
        p.append("--- ");
        p.append(name);
        p.append(" ---\n");
        p.append(content);
        p.append("\n\n");
        proof {
            assert(fv.take(i + 1).drop_last() =~= fv.take(i as int));
            assert(fv.take(i + 1).last() == (name@, content@));
            assert(p@ =~= input_prompt_head() + file_sections(fv.take(i + 1)));
        }
        i += 1;
    }
    p.append(
        "Based on the code above, generate ONLY the exact raw text that should be passed to stdin. Do not include markdown formatting or explanations. The output must be ready to pipe directly into the program.\n",
    );
    proof {
        assert(fv.take(i as int) =~= fv);
    }
    p
}

/// The section of one file: its header line, its content, and a blank line.
pub open spec fn file_section(name: Seq<char>, content: Seq<char>) -> Seq<char> {
    "--- "@ + name + " ---\n"@ + content + "\n\n"@
}

/// The total length of the sections of the first `k` files.
pub open spec fn sections_len(files: Seq<(Seq<char>, Seq<char>)>, k: int) -> int
    decreases k,
{
    if k <= 0 {
        0
    } else {
        sections_len(files, k - 1) + file_section(files[k - 1].0, files[k - 1].1).len()
    }
}

proof fn lemma_sections_len_prefix(files: Seq<(Seq<char>, Seq<char>)>, m: int, k: int)
    requires
        0 <= k <= m <= files.len(),
    ensures
        sections_len(files.take(m), k) == sections_len(files, k),
    decreases k,
{
    if k > 0 {
        lemma_sections_len_prefix(files, m, k - 1);
        assert(files.take(m)[k - 1] == files[k - 1]);
    }
}

proof fn lemma_sections_step(files: Seq<(Seq<char>, Seq<char>)>)
    requires
        files.len() > 0,
    ensures
        file_sections(files) == file_sections(files.drop_last()) + file_section(
            files.last().0,
            files.last().1,
        ),
{
    let x = file_sections(files.drop_last());
    let (name, content) = files.last();
    assert(x + "--- "@ + name + " ---\n"@ + content + "\n\n"@ =~= x + ("--- "@ + name + " ---\n"@
        + content + "\n\n"@));
}

proof fn lemma_sections_layout(files: Seq<(Seq<char>, Seq<char>)>)
    ensures
        file_sections(files).len() == sections_len(files, files.len() as int),
        forall|k: int|
            0 <= k < files.len() ==> file_sections(files).subrange(
                sections_len(files, k),
                sections_len(files, k + 1),
            ) == file_section(#[trigger] files[k].0, files[k].1),
    decreases files.len(),
{
    if files.len() > 0 {
        let n = files.len() as int;
        let dl = files.drop_last();
        lemma_sections_layout(dl);
        lemma_sections_step(files);
        assert(dl =~= files.take(n - 1));
        lemma_sections_len_prefix(files, n - 1, n - 1);
        let x = file_sections(dl);
        let last = file_section(files[n - 1].0, files[n - 1].1);
        assert forall|k: int| 0 <= k < files.len() implies (x + last).subrange(
            sections_len(files, k),
            sections_len(files, k + 1),
        ) == file_section(#[trigger] files[k].0, files[k].1) by {
            if k < n - 1 {
                lemma_sections_len_prefix(files, n - 1, k);
                lemma_sections_len_prefix(files, n - 1, k + 1);
                lemma_sections_len_mono(files, k + 1, n - 1);
                lemma_sections_len_mono(files, k, k + 1);
                assert(dl[k] == files[k]);
                assert((x + last).subrange(sections_len(files, k), sections_len(files, k + 1))
                    =~= x.subrange(sections_len(dl, k), sections_len(dl, k + 1)));
            } else {
                assert((x + last).subrange(sections_len(files, k), sections_len(files, k + 1))
                    =~= last);
            }
        }
    }
}

proof fn lemma_sections_len_mono(files: Seq<(Seq<char>, Seq<char>)>, a: int, b: int)
    requires
        0 <= a <= b,
    ensures
        0 <= sections_len(files, a) <= sections_len(files, b),
    decreases b,
{
    if b > a {
        lemma_sections_len_mono(files, a, b - 1);
    } else if a > 0 {
        lemma_sections_len_mono(files, 0, a - 1);
    }
}

/// The input prompt is the fixed opening, then every file's section in the
/// order of `files` (its header `--- name ---`, its whole content, and a
/// blank line), then the fixed request; nothing else.
pub proof fn law_prompt_holds_each_file(files: Seq<(Seq<char>, Seq<char>)>)
    ensures
        ({
            let p = input_prompt_head() + file_sections(files) + input_prompt_tail();
            let h = input_prompt_head().len() as int;
            &&& p.len() == h + sections_len(files, files.len() as int) + input_prompt_tail().len()
            &&& p.take(h) == input_prompt_head()
            &&& p.skip(h + sections_len(files, files.len() as int)) == input_prompt_tail()
            &&& forall|k: int|
                0 <= k < files.len() ==> p.subrange(h + sections_len(files, k), h + sections_len(files, k + 1))
                    == file_section(#[trigger] files[k].0, files[k].1)
        }),
{
    lemma_sections_layout(files);
    let p = input_prompt_head() + file_sections(files) + input_prompt_tail();
    let h = input_prompt_head().len() as int;
    let m = sections_len(files, files.len() as int);
    assert(p.take(h) =~= input_prompt_head());
    assert(p.skip(h + m) =~= input_prompt_tail());
    assert forall|k: int| 0 <= k < files.len() implies p.subrange(
        h + sections_len(files, k),
        h + sections_len(files, k + 1),
    ) == file_section(#[trigger] files[k].0, files[k].1) by {
        lemma_sections_len_mono(files, k, k + 1);
        lemma_sections_len_mono(files, k + 1, files.len() as int);
        assert(p.subrange(h + sections_len(files, k), h + sections_len(files, k + 1))
            =~= file_sections(files).subrange(sections_len(files, k), sections_len(files, k + 1)));
    }
}

} // verus!
