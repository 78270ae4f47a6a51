use sqlx_data_parser::test_framework::{matches_return_type, ReturnType};

fn scalar(name: &str) -> ReturnType {
    ReturnType::Scalar { name: name.to_string() }
}

fn structure(name: &str) -> ReturnType {
    ReturnType::Struct { name: name.to_string() }
}

#[test]
fn scalars_and_structs_match_by_name() {
    assert!(matches_return_type(&scalar("i32"), &scalar("i32")));
    assert!(!matches_return_type(&scalar("i32"), &scalar("i64")));
    assert!(matches_return_type(&structure("User"), &structure("User")));
    assert!(!matches_return_type(&structure("User"), &structure("Users")));
}

#[test]
fn different_shapes_never_match() {
    assert!(!matches_return_type(&scalar("User"), &structure("User")));
    let opt = ReturnType::Option { inner_type: Box::new(scalar("String")) };
    let opt2 = ReturnType::Option { inner_type: Box::new(scalar("String")) };
    assert!(!matches_return_type(&opt, &opt2));
    let unknown = ReturnType::Unknown { name: "sqlx_data::Error".to_string() };
    let unknown2 = ReturnType::Unknown { name: "sqlx_data::Error".to_string() };
    assert!(!matches_return_type(&unknown, &unknown2));
}
