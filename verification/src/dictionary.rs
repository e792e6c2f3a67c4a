use vstd::prelude::*;
use vstd::string::StrSliceExecFns;
use vstd::string::StringExecFns;

verus! {

/// The user-supplied list of correction words, in the order given. It is
/// immutable after construction and shared read-only by all requests.
pub struct Dictionary {
    pub words: Vec<String>,
}

impl Dictionary {
    pub fn new(words: Vec<String>) -> (d: Dictionary)
        ensures
            d.words == words,
    {
        Dictionary { words }
    }

    /// The word list this dictionary was built from.
    pub fn get(&self) -> (r: &Vec<String>)
        ensures
            r == &self.words,
    {
        &self.words
    }
}

/// One correction: a misrecognized form and the word it should become.
pub struct CorrectionRule {
    pub wrong: String,
    pub right: String,
}

/// The rule table resource: an ordered list of corrections. Loaded from an
/// external resource by the caller; absent resources degrade to pass-through.
pub struct RuleTable {
    pub rules: Vec<CorrectionRule>,
}

/// The character sequences of a word list.
pub open spec fn words_view(ws: Seq<String>) -> Seq<Seq<char>> {
    ws.map_values(|w: String| w@)
}

/// The character-sequence pairs of a rule list.
pub open spec fn rules_view(rs: Seq<CorrectionRule>) -> Seq<(Seq<char>, Seq<char>)> {
    rs.map_values(|r: CorrectionRule| (r.wrong@, r.right@))
}

/// Whether a character continues a word: ASCII letters, digits and the
/// apostrophe; anything else separates words.
pub open spec fn is_word_char(c: char) -> bool {
    (97 <= c as u32 && c as u32 <= 122) || (65 <= c as u32 && c as u32 <= 90) || (48 <= c as u32
        && c as u32 <= 57) || c as u32 == 39
}

fn is_word_char_exec(c: char) -> (r: bool)
    ensures
        r == is_word_char(c),
{
    let u = c as u32;
    (97 <= u && u <= 122) || (65 <= u && u <= 90) || (48 <= u && u <= 57) || u == 39
}

/// The replacement for one recognized word: the first rule whose wrong side
/// matches it, provided the rule's right side is a dictionary word; the word
/// itself when no rule applies.
pub open spec fn replace_word(
    w: Seq<char>,
    words: Seq<Seq<char>>,
    rules: Seq<(Seq<char>, Seq<char>)>,
) -> Seq<char>
    decreases rules.len(),
{
    if rules.len() == 0 {
        w
    } else if rules[0].0 == w && words.contains(rules[0].1) {
        rules[0].1
    } else {
        replace_word(w, words, rules.skip(1))
    }
}

proof fn lemma_replace_word_step(
    w: Seq<char>,
    words: Seq<Seq<char>>,
    rules: Seq<(Seq<char>, Seq<char>)>,
    i: int,
)
    requires
        0 <= i < rules.len(),
    ensures
        replace_word(w, words, rules.skip(i)) == if rules[i].0 == w && words.contains(rules[i].1) {
            rules[i].1
        } else {
            replace_word(w, words, rules.skip(i + 1))
        },
{
    assert(rules.skip(i)[0] == rules[i]);
    assert(rules.skip(i).skip(1) =~= rules.skip(i + 1));
}

/// What flushing the pending word run appends: nothing for an empty run, the
/// run's replacement otherwise.
pub open spec fn flush_run_spec(
    cur: Seq<char>,
    words: Seq<Seq<char>>,
    rules: Seq<(Seq<char>, Seq<char>)>,
) -> Seq<char> {
    if cur.len() == 0 {
        cur
    } else {
        replace_word(cur, words, rules)
    }
}

/// One left-to-right pass over the text from position `i`, with `cur` the
/// word run pending before `i` and `out` the text already rewritten: maximal
/// runs of word characters are replaced by `replace_word`, separators pass
/// through unchanged.
pub open spec fn correct_from(
    text: Seq<char>,
    i: int,
    cur: Seq<char>,
    out: Seq<char>,
    words: Seq<Seq<char>>,
    rules: Seq<(Seq<char>, Seq<char>)>,
) -> Seq<char>
    decreases text.len() - i,
{
    if i < 0 || i >= text.len() {
        out + flush_run_spec(cur, words, rules)
    } else if is_word_char(text[i]) {
        correct_from(text, i + 1, cur.push(text[i]), out, words, rules)
    } else {
        correct_from(
            text,
            i + 1,
            Seq::empty(),
            out + flush_run_spec(cur, words, rules) + seq![text[i]],
            words,
            rules,
        )
    }
}

/// The corrected form of a transcript: every maximal run of word characters
/// is rewritten by the first applicable rule whose right side the dictionary
/// contains; all other characters are kept as they are.
pub open spec fn correct_text_spec(
    text: Seq<char>,
    words: Seq<Seq<char>>,
    rules: Seq<(Seq<char>, Seq<char>)>,
) -> Seq<char> {
    correct_from(text, 0, Seq::empty(), Seq::empty(), words, rules)
}

fn contains_word(words: &Vec<String>, t: &String) -> (r: bool)
    ensures
        r == words_view(words@).contains(t@),
{
    let mut j: usize = 0;
    while j < words.len()
        invariant
            j <= words@.len(),
            forall|k: int| 0 <= k < j ==> words_view(words@)[k] != t@,
        decreases words@.len() - j,
    {
        if words[j].eq(t) {
            assert(words_view(words@)[j as int] == t@);
            return true;
        }
        j += 1;
    }
    assert(!words_view(words@).contains(t@)) by {
        if words_view(words@).contains(t@) {
            let k = choose|k: int|
                0 <= k < words_view(words@).len() && words_view(words@)[k] == t@;
        }
    }
    false
}

fn append_run(out: &mut String, run: &str, words: &Vec<String>, rules: &Vec<CorrectionRule>)
    ensures
        final(out)@ == old(out)@ + flush_run_spec(
            run@,
            words_view(words@),
            rules_view(rules@),
        ),
{
    let ghost wv = words_view(words@);
    let ghost rv = rules_view(rules@);
    if run.unicode_len() == 0 {
        assert(old(out)@ + flush_run_spec(run@, wv, rv) =~= out@);
        return ;
    }
    let run_s: String = String::from_str(run);
    assert(rv.skip(0) =~= rv);
    let mut j: usize = 0;
    while j < rules.len()
        invariant
            j <= rules@.len(),
            run_s@ == run@,
            run@.len() != 0,
            wv == words_view(words@),
            rv == rules_view(rules@),
            out@ == old(out)@,
            replace_word(run@, wv, rv) == replace_word(run@, wv, rv.skip(j as int)),
        decreases rules@.len() - j,
    {
        proof {
            lemma_replace_word_step(run@, wv, rv, j as int);
            assert(rv[j as int] == (rules@[j as int].wrong@, rules@[j as int].right@));
        }
        if rules[j].wrong.eq(&run_s) {
            if contains_word(words, &rules[j].right) {
                out.append(rules[j].right.as_str());
                return ;
            }
        }
        j += 1;
    }
    assert(rv.skip(rules@.len() as int).len() == 0);
    out.append(run);
}

/// Rewrite a raw transcript with the dictionary's word list and the loaded
/// rule table: each maximal run of word characters that matches a rule's
/// wrong side, where the rule's right side is a dictionary word, becomes that
/// right side; everything else is kept. The same text, word list and rules
/// always give the same result.
pub fn fix_transcription_with_dictionary(
    raw: String,
    words: &Vec<String>,
    rules: &RuleTable,
) -> (r: String)
    ensures
        r@ == correct_text_spec(raw@, words_view(words@), rules_view(rules.rules@)),
{
    let ghost wv = words_view(words@);
    let ghost rv = rules_view(rules.rules@);
    let s: &str = raw.as_str();
    let n: usize = s.unicode_len();
    let mut out: String = String::new();
    let mut start: usize = 0;
    let mut i: usize = 0;
    while i < n
        invariant
            start <= i <= n,
            n == raw@.len(),
            s@ == raw@,
            wv == words_view(words@),
            rv == rules_view(rules.rules@),
            correct_text_spec(raw@, wv, rv) == correct_from(
                raw@,
                i as int,
                raw@.subrange(start as int, i as int),
                out@,
                wv,
                rv,
            ),
        decreases n - i,
    {
        let c = s.get_char(i);
        if is_word_char_exec(c) {
            assert(raw@.subrange(start as int, i as int).push(raw@[i as int]) =~= raw@.subrange(
                start as int,
                i + 1,
            ));
        } else {
            let run = s.substring_char(start, i);
            append_run(&mut out, run, words, &rules.rules);
            let sep = s.substring_char(i, i + 1);
            assert(sep@ =~= seq![raw@[i as int]]);
            out.append(sep);
            start = i + 1;
            assert(raw@.subrange(start as int, start as int) =~= Seq::<char>::empty());
        }
        i += 1;
    }
    let run = s.substring_char(start, n);
    append_run(&mut out, run, words, &rules.rules);
    out
}

/// The rule one line yields: the text before the line's first tab and the
/// text after it; a line without a tab yields none.
pub open spec fn line_rule(text: Seq<char>, start: int, tab: Option<int>, end: int) -> Seq<
    (Seq<char>, Seq<char>),
> {
    match tab {
        Option::Some(t) => seq![(text.subrange(start, t), text.subrange(t + 1, end))],
        Option::None => Seq::empty(),
    }
}

/// One pass over the rule text from position `i`: `start` is where the
/// current line began, `tab` where its first tab stood, `acc` the rules
/// gathered from the lines before it.
pub open spec fn parse_rules_from(
    text: Seq<char>,
    i: int,
    start: int,
    tab: Option<int>,
    acc: Seq<(Seq<char>, Seq<char>)>,
) -> Seq<(Seq<char>, Seq<char>)>
    decreases text.len() - i,
{
    if i < 0 || i >= text.len() {
        acc + line_rule(text, start, tab, text.len() as int)
    } else if text[i] == '\n' {
        parse_rules_from(text, i + 1, i + 1, Option::None, acc + line_rule(text, start, tab, i))
    } else if text[i] == '\t' && tab is None {
        parse_rules_from(text, i + 1, start, Option::Some(i), acc)
    } else {
        parse_rules_from(text, i + 1, start, tab, acc)
    }
}

/// The rules a rule-table text holds: one per line that contains a tab, the
/// wrong form standing before the line's first tab and the right form after
/// it.
pub open spec fn parse_rules_spec(text: Seq<char>) -> Seq<(Seq<char>, Seq<char>)> {
    parse_rules_from(text, 0, 0, Option::None, Seq::empty())
}

proof fn lemma_rules_view_push(rs: Seq<CorrectionRule>, r: CorrectionRule)
    ensures
        rules_view(rs.push(r)) == rules_view(rs) + seq![(r.wrong@, r.right@)],
{
    assert(rules_view(rs.push(r)) =~= rules_view(rs) + seq![(r.wrong@, r.right@)]);
}

/// Parse the rule table resource: one correction per line, the wrong and the
/// right form separated by the line's first tab; lines without a tab are
/// ignored. Reading the resource's text is the caller's; this function only
/// parses.
pub fn parse_rule_table(text: &str) -> (r: RuleTable)
    ensures
        rules_view(r.rules@) == parse_rules_spec(text@),
{
    let n = text.unicode_len();
    let mut rules: Vec<CorrectionRule> = Vec::new();
    let mut start: usize = 0;
    let mut tab: usize = 0;
    let mut has_tab: bool = false;
    let mut i: usize = 0;
    assert(rules_view(rules@) =~= Seq::<(Seq<char>, Seq<char>)>::empty());
    while i < n
        invariant
            start <= i <= n,
            n == text@.len(),
            has_tab ==> start <= tab < i,
            parse_rules_spec(text@) == parse_rules_from(
                text@,
                i as int,
                start as int,
                if has_tab {
                    Option::Some(tab as int)
                } else {
                    Option::None
                },
                rules_view(rules@),
            ),
        decreases n - i,
    {
        let c = text.get_char(i);
        if c == '\n' {
            if has_tab {
                let wrong = String::from_str(text.substring_char(start, tab));
                let right = String::from_str(text.substring_char(tab + 1, i));
                let ghost before = rules@;
                let rule = CorrectionRule { wrong, right };
                proof {
                    lemma_rules_view_push(before, rule);
                }
                rules.push(rule);
            } else {
                assert(rules_view(rules@) + line_rule(text@, start as int, Option::None, i as int)
                    =~= rules_view(rules@));
            }
            start = i + 1;
            has_tab = false;
        } else if c == '\t' && !has_tab {
            tab = i;
            has_tab = true;
        }
        i += 1;
    }
    if has_tab {
        let wrong = String::from_str(text.substring_char(start, tab));
        let right = String::from_str(text.substring_char(tab + 1, n));
        let ghost before = rules@;
        let rule = CorrectionRule { wrong, right };
        proof {
            lemma_rules_view_push(before, rule);
        }
        rules.push(rule);
    } else {
        assert(rules_view(rules@) + line_rule(text@, start as int, Option::None, n as int)
            =~= rules_view(rules@));
    }
    RuleTable { rules }
}

/// With an empty rule table, correction reconstructs the text exactly: the
/// pass is the identity.
pub proof fn lemma_correct_empty_rules(
    text: Seq<char>,
    words: Seq<Seq<char>>,
    rules: Seq<(Seq<char>, Seq<char>)>,
)
    requires
        rules.len() == 0,
    ensures
        correct_text_spec(text, words, rules) == text,
{
    lemma_correct_from_empty_rules(text, 0, Seq::empty(), Seq::empty(), words, rules);
    assert(Seq::<char>::empty() + Seq::<char>::empty() + text.subrange(0, text.len() as int)
        =~= text);
}

proof fn lemma_correct_from_empty_rules(
    text: Seq<char>,
    i: int,
    cur: Seq<char>,
    out: Seq<char>,
    words: Seq<Seq<char>>,
    rules: Seq<(Seq<char>, Seq<char>)>,
)
    requires
        rules.len() == 0,
        0 <= i <= text.len(),
    ensures
        correct_from(text, i, cur, out, words, rules) == out + cur + text.subrange(
            i,
            text.len() as int,
        ),
    decreases text.len() - i,
{
    if i >= text.len() {
        assert(out + flush_run_spec(cur, words, rules) =~= out + cur + text.subrange(
            i,
            text.len() as int,
        ));
    } else if is_word_char(text[i]) {
        lemma_correct_from_empty_rules(text, i + 1, cur.push(text[i]), out, words, rules);
        assert(out + cur.push(text[i]) + text.subrange(i + 1, text.len() as int) =~= out + cur
            + text.subrange(i, text.len() as int));
    } else {
        let out2 = out + flush_run_spec(cur, words, rules) + seq![text[i]];
        lemma_correct_from_empty_rules(text, i + 1, Seq::empty(), out2, words, rules);
        assert(out2 + Seq::<char>::empty() + text.subrange(i + 1, text.len() as int) =~= out + cur
            + text.subrange(i, text.len() as int));
    }
}

} // verus!
