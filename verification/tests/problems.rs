use std::ops::Deref;
use std::ops::DerefMut;

fn choose_str<'a>(s1: &'a str, s2: &'a str, select_s1: bool) -> &'a str {
    if select_s1 {
        s1
    } else {
        s2
    }
}

/// An owned-or-borrowed string: a mutable dereference of the borrowed
/// variant first turns it into an owned one.
enum Oor<'a> {
    Owned(String),
    Borrowed(&'a str),
}

impl<'a> Deref for Oor<'a> {
    type Target = str;

    fn deref(&self) -> &Self::Target {
        match self {
            Oor::Owned(s) => s,
            Oor::Borrowed(s) => s,
        }
    }
}

impl<'a> DerefMut for Oor<'a> {
    fn deref_mut(&mut self) -> &mut Self::Target {
        if let Oor::Borrowed(s) = self {
            *self = Oor::Owned(s.to_string());
        }

        match self {
            Oor::Owned(s) => s,
            Oor::Borrowed(_) => unreachable!(),
        }
    }
}

#[test]
fn test() {
    // Check Deref for both variants of Oor
    let s1 = Oor::Owned(String::from("  Hello, world.  "));
    assert_eq!(s1.trim(), "Hello, world.");
    let mut s2 = Oor::Borrowed("  Hello, world!  ");
    assert_eq!(s2.trim(), "Hello, world!");

    // Check choose
    let s = choose_str(&s1, &s2, true);
    assert_eq!(s.trim(), "Hello, world.");
    let s = choose_str(&s1, &s2, false);
    assert_eq!(s.trim(), "Hello, world!");

    // Check DerefMut, a borrowed string should become owned
    assert!(matches!(s1, Oor::Owned(_)));
    assert!(matches!(s2, Oor::Borrowed(_)));
    let _: &mut str = &mut s2;
    assert!(matches!(s2, Oor::Owned(_)));
    // Swap '!' for '?' on the now-owned text and check the result
    let s2 = Oor::Owned(s2.replace('!', "?"));
    assert_eq!(s2.trim(), "Hello, world?");
}
