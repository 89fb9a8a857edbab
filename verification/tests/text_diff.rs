use voquill::text_diff::{compute_edit_regions, find_longest_match, find_matching_blocks, smart_write_steps, KeystrokeEdit};

fn chars(s: &str) -> Vec<char> {
    s.chars().collect()
}

fn regions(old: &str, new: &str) -> Vec<(usize, usize, String)> {
    compute_edit_regions(old, new).into_iter().map(|e| (e.old_start, e.old_end, e.new_text)).collect()
}

fn apply_steps(current: &str, steps: &[KeystrokeEdit]) -> String {
    let mut text = chars(current);
    for step in steps {
        let end = step.caret + step.select_len;
        text.splice(step.caret..end, step.text.chars());
    }
    text.into_iter().collect()
}

#[test]
fn longest_match_takes_the_first_longest() {
    assert_eq!(find_longest_match(&chars("hello world"), &chars("hello there world"), 2), Some((0, 0, 6)));
    assert_eq!(find_longest_match(&chars("abab"), &chars("ab"), 2), Some((0, 0, 2)));
    assert_eq!(find_longest_match(&chars("abc"), &chars("xyz"), 1), None);
    assert_eq!(find_longest_match(&chars("a"), &chars("a"), 2), None);
}

#[test]
fn matching_blocks_in_order() {
    assert_eq!(find_matching_blocks(&chars("hello world"), &chars("hello there world"), 0, 0), vec![(0, 0, 6), (6, 12, 5)]);
    assert_eq!(find_matching_blocks(&chars("The quick brown fox"), &chars("The slow brown dog"), 0, 0), vec![(0, 0, 4), (9, 8, 7)]);
    assert_eq!(find_matching_blocks(&chars("abc"), &chars(""), 0, 0), vec![]);
    assert_eq!(find_matching_blocks(&chars("xabcdef"), &chars("abXYef"), 5, 7), vec![(6, 7, 2), (10, 11, 2)]);
}

#[test]
fn edit_regions_of_common_edits() {
    assert_eq!(regions("hello world", "hello there world"), vec![(6, 6, "there ".to_string())]);
    assert_eq!(regions("abcdef", "abXYef"), vec![(2, 4, "XY".to_string())]);
    assert_eq!(regions("The quick brown fox", "The slow brown dog"), vec![(4, 9, "slow".to_string()), (16, 19, "dog".to_string())]);
    assert_eq!(regions("", ""), vec![]);
    assert_eq!(regions("abc", ""), vec![(0, 3, String::new())]);
    assert_eq!(regions("", "xyz"), vec![(0, 0, "xyz".to_string())]);
    assert_eq!(regions("aaaa", "aa"), vec![(2, 4, String::new())]);
    assert_eq!(regions("colour", "color"), vec![(4, 6, "r".to_string())]);
}

#[test]
fn edit_regions_rebuild_the_new_text() {
    let cases = [("hello world", "hello there world"), ("The quick brown fox", "The slow brown dog"), ("naïve café", "naive cafe!"), ("", "new"), ("old", "")];
    for (old, new) in cases {
        let old_c = chars(old);
        let mut rebuilt: Vec<char> = Vec::new();
        let mut at = 0;
        for (start, end, text) in regions(old, new) {
            assert!(at <= start && start <= end);
            rebuilt.extend_from_slice(&old_c[at..start]);
            rebuilt.extend(text.chars());
            at = end;
        }
        rebuilt.extend_from_slice(&old_c[at..]);
        assert_eq!(rebuilt.into_iter().collect::<String>(), new);
    }
}

#[test]
fn smart_write_steps_turn_current_into_desired() {
    assert!(smart_write_steps("same", "same").is_empty());
    let steps = smart_write_steps("The quick brown fox", "The slow brown dog");
    assert_eq!(steps.len(), 2);
    assert_eq!((steps[0].caret, steps[0].select_len, steps[0].text.as_str()), (16, 3, "dog"));
    assert_eq!((steps[1].caret, steps[1].select_len, steps[1].text.as_str()), (4, 5, "slow"));
    for (current, desired) in [("The quick brown fox", "The slow brown dog"), ("abc", ""), ("", "xyz"), ("héllo wörld", "hello world"), ("aaaa", "aa")] {
        assert_eq!(apply_steps(current, &smart_write_steps(current, desired)), desired);
    }
}

#[test]
fn equal_texts_need_no_edit_regions() {
    assert!(regions("a", "a").is_empty());
    assert!(regions("hello", "hello").is_empty());
    assert!(regions("", "").is_empty());
}

#[test]
fn edit_regions_keep_at_least_two_characters_between() {
    let rs = regions("the quick brown fox", "tha quack brawn fax");
    for w in rs.windows(2) {
        assert!(w[0].1 + 2 <= w[1].0);
    }
}
