//! Tests for the unitary-enum registry trait, exercised through the
//! example enums the crate provides.

use rs_utils::enum_unitary::EnumUnitary;
use rs_utils::enum_unitary::{Myenum1, Myenum2, Myenum3, Myenum4};
use rs_utils::file::{NamingMode, PathError};

#[test]
fn test_unit() {
    // private enum
    assert_eq!(Myenum1::count(), 3);
    assert_eq!(Myenum1::count_variants(), 3);
    assert_eq!(Myenum1::A as usize, 0);
    assert_eq!(Myenum1::B as usize, 1);
    assert_eq!(Myenum1::C as usize, 2);
    assert_eq!(Some(Myenum1::A), Myenum1::from_usize(0));
    assert_eq!(Some(Myenum1::B), Myenum1::from_usize(1));
    assert_eq!(Some(Myenum1::C), Myenum1::from_usize(2));
    assert_eq!(None, Myenum1::from_usize(3));
    assert_eq!(Some(0), Myenum1::A.to_usize());
    assert_eq!(Some(1), Myenum1::B.to_usize());
    assert_eq!(Some(2), Myenum1::C.to_usize());
    assert_eq!(Myenum1::min_value(), Myenum1::A);
    assert_eq!(Myenum1::max_value(), Myenum1::C);
    let mut i = Myenum1::iter_variants().into_iter();
    assert_eq!(i.next(), Some(Myenum1::A));
    assert_eq!(i.next(), Some(Myenum1::B));
    assert_eq!(i.next(), Some(Myenum1::C));
    assert_eq!(i.next(), None);
    assert_eq!(Myenum1::A.next_variant(), Some(Myenum1::B));
    assert_eq!(Myenum1::A.prev_variant(), None);
    assert_eq!(Myenum1::B.next_variant(), Some(Myenum1::C));
    assert_eq!(Myenum1::B.prev_variant(), Some(Myenum1::A));
    assert_eq!(Myenum1::C.next_variant(), None);
    assert_eq!(Myenum1::C.prev_variant(), Some(Myenum1::B));

    // public enum
    assert_eq!(Myenum2::count(), 3);
    assert_eq!(Myenum2::count_variants(), 3);
    assert_eq!(Myenum2::A as usize, 0);
    assert_eq!(Myenum2::B as usize, 1);
    assert_eq!(Myenum2::C as usize, 2);
    assert_eq!(Some(Myenum2::A), Myenum2::from_usize(0));
    assert_eq!(Some(Myenum2::B), Myenum2::from_usize(1));
    assert_eq!(Some(Myenum2::C), Myenum2::from_usize(2));
    assert_eq!(None, Myenum2::from_usize(3));
    assert_eq!(Some(0), Myenum2::A.to_usize());
    assert_eq!(Some(1), Myenum2::B.to_usize());
    assert_eq!(Some(2), Myenum2::C.to_usize());
    assert_eq!(Myenum2::min_value(), Myenum2::A);
    assert_eq!(Myenum2::max_value(), Myenum2::C);
    let mut i = Myenum2::iter_variants().into_iter();
    assert_eq!(i.next(), Some(Myenum2::A));
    assert_eq!(i.next(), Some(Myenum2::B));
    assert_eq!(i.next(), Some(Myenum2::C));
    assert_eq!(i.next(), None);
    assert_eq!(Myenum2::A.next_variant(), Some(Myenum2::B));
    assert_eq!(Myenum2::A.prev_variant(), None);
    assert_eq!(Myenum2::B.next_variant(), Some(Myenum2::C));
    assert_eq!(Myenum2::B.prev_variant(), Some(Myenum2::A));
    assert_eq!(Myenum2::C.next_variant(), None);
    assert_eq!(Myenum2::C.prev_variant(), Some(Myenum2::B));

    // private singleton enum
    assert_eq!(Myenum3::count(), 1);
    assert_eq!(Myenum3::count_variants(), 1);
    assert_eq!(Myenum3::X as usize, 0);
    assert_eq!(Some(Myenum3::X), Myenum3::from_usize(0));
    assert_eq!(None, Myenum3::from_usize(1));
    assert_eq!(Some(0), Myenum3::X.to_usize());
    assert_eq!(Myenum3::min_value(), Myenum3::X);
    assert_eq!(Myenum3::max_value(), Myenum3::X);
    let mut i = Myenum3::iter_variants().into_iter();
    assert_eq!(i.next(), Some(Myenum3::X));
    assert_eq!(i.next(), None);
    assert_eq!(Myenum3::X.next_variant(), None);
    assert_eq!(Myenum3::X.prev_variant(), None);

    // public singleton enum
    assert_eq!(Myenum4::count(), 1);
    assert_eq!(Myenum4::count_variants(), 1);
    assert_eq!(Myenum4::X as usize, 0);
    assert_eq!(Some(Myenum4::X), Myenum4::from_usize(0));
    assert_eq!(None, Myenum4::from_usize(1));
    assert_eq!(Some(0), Myenum4::X.to_usize());
    assert_eq!(Myenum4::min_value(), Myenum4::X);
    assert_eq!(Myenum4::max_value(), Myenum4::X);
    let mut i = Myenum4::iter_variants().into_iter();
    assert_eq!(i.next(), Some(Myenum4::X));
    assert_eq!(i.next(), None);
    assert_eq!(Myenum4::X.next_variant(), None);
    assert_eq!(Myenum4::X.prev_variant(), None);
}

#[test]
fn enum_unitary_test_unit() {
    // private enum
    assert_eq!(Myenum1::count(), 3);
    assert_eq!(Myenum1::A as usize, 0);
    assert_eq!(Myenum1::B as usize, 1);
    assert_eq!(Myenum1::C as usize, 2);
    assert_eq!(Some(Myenum1::A), Myenum1::from_usize(0));
    assert_eq!(Some(Myenum1::B), Myenum1::from_usize(1));
    assert_eq!(Some(Myenum1::C), Myenum1::from_usize(2));
    assert_eq!(None, Myenum1::from_usize(3));
    assert_eq!(Myenum1::min_value(), Myenum1::A);
    assert_eq!(Myenum1::max_value(), Myenum1::C);
    let mut i = Myenum1::iter_variants().into_iter();
    assert_eq!(i.next(), Some(Myenum1::A));
    assert_eq!(i.next(), Some(Myenum1::B));
    assert_eq!(i.next(), Some(Myenum1::C));
    assert_eq!(i.next(), None);
    assert_eq!(Myenum1::A.next_variant(), Some(Myenum1::B));
    assert_eq!(Myenum1::A.prev_variant(), None);
    assert_eq!(Myenum1::B.next_variant(), Some(Myenum1::C));
    assert_eq!(Myenum1::B.prev_variant(), Some(Myenum1::A));
    assert_eq!(Myenum1::C.next_variant(), None);
    assert_eq!(Myenum1::C.prev_variant(), Some(Myenum1::B));

    // public enum
    assert_eq!(Myenum2::count(), 3);
    assert_eq!(Myenum2::A as usize, 0);
    assert_eq!(Myenum2::B as usize, 1);
    assert_eq!(Myenum2::C as usize, 2);
    assert_eq!(Some(Myenum2::A), Myenum2::from_usize(0));
    assert_eq!(Some(Myenum2::B), Myenum2::from_usize(1));
    assert_eq!(Some(Myenum2::C), Myenum2::from_usize(2));
    assert_eq!(None, Myenum2::from_usize(3));
    assert_eq!(Myenum2::min_value(), Myenum2::A);
    assert_eq!(Myenum2::max_value(), Myenum2::C);
    let mut i = Myenum2::iter_variants().into_iter();
    assert_eq!(i.next(), Some(Myenum2::A));
    assert_eq!(i.next(), Some(Myenum2::B));
    assert_eq!(i.next(), Some(Myenum2::C));
    assert_eq!(i.next(), None);
    assert_eq!(Myenum2::A.next_variant(), Some(Myenum2::B));
    assert_eq!(Myenum2::A.prev_variant(), None);
    assert_eq!(Myenum2::B.next_variant(), Some(Myenum2::C));
    assert_eq!(Myenum2::B.prev_variant(), Some(Myenum2::A));
    assert_eq!(Myenum2::C.next_variant(), None);
    assert_eq!(Myenum2::C.prev_variant(), Some(Myenum2::B));

    // private singleton enum
    assert_eq!(Myenum3::count(), 1);
    assert_eq!(Myenum3::X as usize, 0);
    assert_eq!(Some(Myenum3::X), Myenum3::from_usize(0));
    assert_eq!(None, Myenum3::from_usize(1));
    assert_eq!(Myenum3::min_value(), Myenum3::X);
    assert_eq!(Myenum3::max_value(), Myenum3::X);
    let mut i = Myenum3::iter_variants().into_iter();
    assert_eq!(i.next(), Some(Myenum3::X));
    assert_eq!(i.next(), None);
    assert_eq!(Myenum3::X.next_variant(), None);
    assert_eq!(Myenum3::X.prev_variant(), None);

    // public singleton enum
    assert_eq!(Myenum4::count(), 1);
    assert_eq!(Myenum4::X as usize, 0);
    assert_eq!(Some(Myenum4::X), Myenum4::from_usize(0));
    assert_eq!(None, Myenum4::from_usize(1));
    assert_eq!(Myenum4::min_value(), Myenum4::X);
    assert_eq!(Myenum4::max_value(), Myenum4::X);
    let mut i = Myenum4::iter_variants().into_iter();
    assert_eq!(i.next(), Some(Myenum4::X));
    assert_eq!(i.next(), None);
    assert_eq!(Myenum4::X.next_variant(), None);
    assert_eq!(Myenum4::X.prev_variant(), None);
}

#[test]
fn library_enums_are_unitary() {
    assert_eq!(NamingMode::count_variants(), 2);
    assert_eq!(NamingMode::min_value(), NamingMode::Suffix);
    assert_eq!(NamingMode::max_value(), NamingMode::PreserveExtension);
    assert_eq!(NamingMode::Suffix.to_usize(), Some(0));
    assert_eq!(NamingMode::PreserveExtension.to_usize(), Some(1));
    assert_eq!(NamingMode::from_usize(1), Some(NamingMode::PreserveExtension));
    assert_eq!(NamingMode::from_usize(2), None);
    assert_eq!(
        NamingMode::iter_variants(),
        vec![NamingMode::Suffix, NamingMode::PreserveExtension]
    );
    assert_eq!(NamingMode::Suffix.next_variant(), Some(NamingMode::PreserveExtension));
    assert_eq!(NamingMode::PreserveExtension.next_variant(), None);
    assert_eq!(NamingMode::Suffix.prev_variant(), None);

    assert_eq!(PathError::count_variants(), 4);
    assert_eq!(PathError::min_value(), PathError::InvalidEncoding);
    assert_eq!(PathError::max_value(), PathError::IoFailure);
    assert_eq!(PathError::AlreadyExists.to_usize(), Some(2));
    assert_eq!(PathError::from_usize(3), Some(PathError::IoFailure));
    assert_eq!(PathError::from_usize(4), None);
    assert_eq!(PathError::NotAFile.next_variant(), Some(PathError::AlreadyExists));
    assert_eq!(PathError::NotAFile.prev_variant(), Some(PathError::InvalidEncoding));
}
