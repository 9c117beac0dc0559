use ravault_ui::keyed::KeyedList;
use ravault_ui::model::{AccountAddress, ResourceAddress};
use ravault_ui::secret::Password;
use ravault_ui::text::{ascii_lowercase, chars_of, contains_text, texts_equal};

fn res(s: &str) -> ResourceAddress {
    ResourceAddress(s.to_string())
}

#[test]
fn keyed_insert_get_replace_remove() {
    let mut m: KeyedList<ResourceAddress, u32> = KeyedList::new();
    assert!(m.is_empty());
    assert_eq!(m.insert(res("a"), 1), None);
    assert_eq!(m.insert(res("b"), 2), None);
    assert_eq!(m.len(), 2);
    assert_eq!(m.get(&res("a")), Some(&1));
    // A key that is already there keeps its place and takes the new value.
    assert_eq!(m.insert(res("a"), 3), Some(1));
    assert_eq!(m.len(), 2);
    assert_eq!(m.entry_at(0).0 .0, "a");
    assert_eq!(*m.entry_at(0).1, 3);
    assert_eq!(m.index_of(&res("b")), Some(1));
    assert_eq!(m.remove(&res("a")), Some(3));
    assert_eq!(m.remove(&res("a")), None);
    assert!(!m.contains_key(&res("a")));
    assert_eq!(m.get(&res("b")), Some(&2));
    m.clear();
    assert!(m.is_empty());
}

#[test]
fn keyed_extend_prefers_the_new_values() {
    let mut m: KeyedList<AccountAddress, u32> = KeyedList::new();
    m.insert(AccountAddress("x".to_string()), 1);
    m.insert(AccountAddress("y".to_string()), 2);
    let mut other: KeyedList<AccountAddress, u32> = KeyedList::new();
    other.insert(AccountAddress("y".to_string()), 20);
    other.insert(AccountAddress("z".to_string()), 30);
    m.extend(other);
    assert_eq!(m.len(), 3);
    assert_eq!(m.get(&AccountAddress("x".to_string())), Some(&1));
    assert_eq!(m.get(&AccountAddress("y".to_string())), Some(&20));
    assert_eq!(m.get(&AccountAddress("z".to_string())), Some(&30));
    let entries = m.into_entries();
    assert_eq!(entries.len(), 3);
}

#[test]
fn lowercase_and_search() {
    assert_eq!(ascii_lowercase("XRD Token-Ä"), "xrd token-Ä");
    assert!(contains_text("radix token", "tok"));
    assert!(contains_text("radix", ""));
    assert!(!contains_text("rad", "radix"));
    assert!(!contains_text("radix", "xd"));
    assert!(texts_equal("abc", "abc"));
    assert!(!texts_equal("abc", "abd"));
    assert_eq!(chars_of("añb"), vec!['a', 'ñ', 'b']);
}

#[test]
fn password_replace_wipes_the_input() {
    let mut p = Password::new();
    assert!(p.is_empty());
    p.push_str("secret");
    assert_eq!(p.as_str(), "secret");
    let mut typed = String::from("new password");
    p.replace_with(&mut typed);
    assert_eq!(p.as_str(), "new password");
    assert!(typed.is_empty());
    let q = p.clone();
    assert_eq!(q.as_str(), "new password");
    p.clear();
    assert!(p.is_empty());
}
