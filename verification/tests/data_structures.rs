use cuchabot::bst::{NodeTree, BST};
use cuchabot::stack::Stack;

fn sample_tree() -> BST<String> {
    let mut t = BST::new();
    for k in [50u64, 30, 70, 20, 40, 60, 80] {
        t.insert(k, format!("v{}", k));
    }
    t
}

#[test]
fn node_tree_new_builds_a_leaf() {
    let _n = NodeTree::new(7, "seven".to_string());
}

#[test]
fn bst_insert_then_get() {
    let mut t = sample_tree();
    assert_eq!(t.get_by_key(40).as_deref(), Some(&"v40".to_string()));
    assert_eq!(t.get_by_key(45), None);
}

#[test]
fn bst_insert_existing_key_keeps_old_value() {
    let mut t = sample_tree();
    t.insert(30, "other".to_string());
    assert_eq!(t.get_by_key(30).as_deref(), Some(&"v30".to_string()));
}

#[test]
fn bst_replace_by_key() {
    let mut t = sample_tree();
    assert_eq!(t.replace_by_key(60, "new".to_string()), Some(()));
    assert_eq!(t.get_by_key(60).as_deref(), Some(&"new".to_string()));
    assert_eq!(t.replace_by_key(61, "x".to_string()), None);
    assert_eq!(t.get_by_key(61), None);
}

#[test]
fn bst_delete_leaf_inner_and_root() {
    let mut t = sample_tree();
    t.delete_by_key(20);
    assert_eq!(t.get_by_key(20), None);
    t.delete_by_key(30);
    assert_eq!(t.get_by_key(30), None);
    assert_eq!(t.get_by_key(40).as_deref(), Some(&"v40".to_string()));
    // the root has two subtrees: it takes the smallest key on its right
    t.delete_by_key(50);
    assert_eq!(t.get_by_key(50), None);
    let lines = t.show_lines();
    assert_eq!(lines[0], "60");
    for k in [40u64, 60, 70, 80] {
        assert!(t.get_by_key(k).is_some());
    }
}

#[test]
fn bst_delete_missing_key_changes_nothing() {
    let mut t = sample_tree();
    let before = t.show_lines();
    t.delete_by_key(99);
    assert_eq!(t.show_lines(), before);
}

#[test]
fn bst_delete_only_key_is_kept() {
    let mut t = BST::new();
    t.insert(5, 1u8);
    t.delete_by_key(5);
    assert_eq!(t.get_by_key(5).as_deref(), Some(&1));
}

#[test]
fn bst_delete_then_insert_again() {
    let mut t = sample_tree();
    t.delete_by_key(70);
    t.insert(70, "back".to_string());
    assert_eq!(t.get_by_key(70).as_deref(), Some(&"back".to_string()));
}

#[test]
fn bst_clear_empties() {
    let mut t = sample_tree();
    t.clear();
    assert_eq!(t.get_by_key(50), None);
    assert_eq!(t.show_lines(), vec!["The current BST is empty".to_string()]);
}

#[test]
fn bst_show_lines_preorder() {
    let t = sample_tree();
    let lines = t.show_lines();
    assert_eq!(
        lines,
        vec!["50", "-   30", "-   -   20", "-   -   40", "-   70", "-   -   60", "-   -   80"]
    );
    assert_eq!(lines.len(), 7);
}

#[test]
fn stack_push_peek_pop_count() {
    let mut s: Stack<i32> = Stack::new();
    assert_eq!(s.peek(), None);
    assert_eq!(Stack::cuenta(&s), 0);
    s.push(1);
    s.push(2);
    assert_eq!(s.peek(), Some(&2));
    assert_eq!(Stack::cuenta(&s), 2);
    assert_eq!(s.pop(), Some(2));
    assert_eq!(s.pop(), Some(1));
    assert_eq!(s.pop(), None);
    assert_eq!(Stack::cuenta(&s), 0);
}

#[test]
fn stack_reverses_a_phrase() {
    assert_eq!(Stack::<String>::invertir_frase("hola mundo"), "odnum aloh");
    assert_eq!(Stack::<String>::invertir_frase("a"), "a");
    assert_eq!(Stack::<String>::invertir_frase("ñandú"), "údnañ");
    let twice = Stack::<String>::invertir_frase(&Stack::<String>::invertir_frase("cuchabot"));
    assert_eq!(twice, "cuchabot");
}

#[test]
fn bst_deletion_blocked_only_for_root_with_one_subtree() {
    let mut t = BST::new();
    t.insert(10, 'a');
    assert!(!t.deletion_blocked(10));
    t.insert(5, 'b');
    assert!(t.deletion_blocked(10));
    assert!(!t.deletion_blocked(5));
    t.insert(15, 'c');
    assert!(!t.deletion_blocked(10));
    t.delete_by_key(10);
    assert_eq!(t.get_by_key(10), None);
    assert_eq!(t.show_lines(), vec!["15", "-   5"]);
}

#[test]
fn bst_delete_undoes_insert() {
    let mut t = sample_tree();
    let before = t.show_lines();
    t.insert(65, "x".to_string());
    assert_eq!(t.show_lines().len(), 8);
    t.delete_by_key(65);
    assert_eq!(t.show_lines(), before);
}
