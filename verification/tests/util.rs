use texture_atlas::utils::{next_pot_exp, with, NextPot};

struct Holder<T> {
    pub obj: T,
}

impl<T> Holder<T> {
    fn new(obj: T) -> Self {
        Self { obj }
    }
}

impl<T> std::ops::Deref for Holder<T> {
    type Target = T;
    fn deref(&self) -> &Self::Target {
        &self.obj
    }
}

impl<T> std::ops::DerefMut for Holder<T> {
    fn deref_mut(&mut self) -> &mut Self::Target {
        &mut self.obj
    }
}

#[test]
fn test_obj_holder() {
    let mut obj = Holder::new(5.0);
    *obj *= 3.0;
    assert_eq!(15.0, *obj);
}

#[test]
fn test_with_applies_function() {
    let r = with(20, |x: i32| x + 1);
    assert_eq!(r, 21);
    let s = with(String::from("ab"), |s: String| s.len());
    assert_eq!(s, 2);
}

#[test]
fn test_next_pot_exponents() {
    assert_eq!(0u32.next_pot(), 0);
    assert_eq!(1u32.next_pot(), 0);
    assert_eq!(2u32.next_pot(), 1);
    assert_eq!(3u32.next_pot(), 2);
    assert_eq!(16u32.next_pot(), 4);
    assert_eq!(17u32.next_pot(), 5);
    assert_eq!(1024u32.next_pot(), 10);
    assert_eq!(next_pot_exp(u32::MAX), 32);
}
