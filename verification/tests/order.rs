use anime_pic_manage::order::{sort_strings, sorted_unique};

fn strings(items: &[&str]) -> Vec<String> {
    items.iter().map(|s| s.to_string()).collect()
}

#[test]
fn strings_sort_by_their_characters() {
    assert_eq!(sort_strings(strings(&["b", "a", "ab", "B", "a"])), strings(&["B", "a", "a", "ab", "b"]));
    assert_eq!(sort_strings(vec![]), Vec::<String>::new());
}

#[test]
fn sorted_unique_drops_repeats() {
    assert_eq!(sorted_unique(strings(&["z", "a", "z", "m", "a"])), strings(&["a", "m", "z"]));
    assert_eq!(sorted_unique(strings(&["只", "只"])), strings(&["只"]));
}
