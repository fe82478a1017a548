use raytracing::components;

const SHAPE: &str = "Un vector tiene que estar en el formato 'x,y,z'";

#[test]
fn three_components_are_split() {
    assert_eq!(components("-2,2,1"), Ok(("-2", "2", "1")));
}

#[test]
fn default_literals_are_split() {
    assert_eq!(components("0,0,-1"), Ok(("0", "0", "-1")));
    assert_eq!(components("0,1,0"), Ok(("0", "1", "0")));
}

#[test]
fn components_keep_their_spaces_and_signs() {
    assert_eq!(components(" 1.5 ,-2e3, +0.25"), Ok((" 1.5 ", "-2e3", " +0.25")));
}

#[test]
fn empty_components_are_allowed() {
    assert_eq!(components(",,"), Ok(("", "", "")));
    assert_eq!(components("1,,3"), Ok(("1", "", "3")));
    assert_eq!(components(",2,"), Ok(("", "2", "")));
}

#[test]
fn components_are_split_by_characters_not_bytes() {
    assert_eq!(components("é,ü,ß"), Ok(("é", "ü", "ß")));
    assert_eq!(components("１,２,３"), Ok(("１", "２", "３")));
}

#[test]
fn components_join_back_to_the_literal() {
    for s in ["-2,2,1", ",,", "a b,c,d e", "1.0,2.0,3.0"] {
        let (x, y, z) = components(s).unwrap();
        assert_eq!(format!("{},{},{}", x, y, z), s);
        assert!(!x.contains(','));
        assert!(!y.contains(','));
        assert!(!z.contains(','));
    }
}

#[test]
fn empty_literal_is_refused() {
    assert_eq!(components(""), Err(SHAPE.to_string()));
}

#[test]
fn one_component_is_refused() {
    assert_eq!(components("1"), Err(SHAPE.to_string()));
}

#[test]
fn two_components_are_refused() {
    assert_eq!(components("1,2"), Err(SHAPE.to_string()));
}

#[test]
fn four_components_are_refused() {
    assert_eq!(components("1,2,3,4"), Err(SHAPE.to_string()));
    assert_eq!(components("1,2,3,"), Err(SHAPE.to_string()));
    assert_eq!(components(",,,"), Err(SHAPE.to_string()));
}

#[test]
fn other_separators_are_refused() {
    assert_eq!(components("1;2;3"), Err(SHAPE.to_string()));
    assert_eq!(components("1 2 3"), Err(SHAPE.to_string()));
}

#[test]
fn split_agrees_with_std_split() {
    for s in ["-2,2,1", "", "1", "1,2", "1,2,3,4", ",,", "a,,b", ",", "x,y,z"] {
        let fields: Vec<&str> = s.split(',').collect();
        match components(s) {
            Ok((x, y, z)) => assert_eq!(fields, vec![x, y, z]),
            Err(_) => assert_ne!(fields.len(), 3),
        }
    }
}
