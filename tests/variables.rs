use compiler_course::{CharPositions, Identifier, VariablesTable};

#[test]
fn variable_position() {
    let a = Identifier("a".to_string());
    let b = Identifier("b".to_string());
    let c = Identifier("c".to_string());

    let env = VariablesTable::new().with_var(&a).with_var(&b).with_var(&c);

    assert_eq!(env.position(&a), Some(2));
    assert_eq!(env.position(&b), Some(1));
    assert_eq!(env.position(&c), Some(0));
}

#[test]
fn nearest_binding_wins() {
    let x = Identifier("x".to_string());
    let y = Identifier("y".to_string());
    let env = VariablesTable::new().with_var(&x).with_non_var().with_var(&x).with_var(&y);
    assert_eq!(env.position(&x), Some(1));
    assert_eq!(env.position(&Identifier("z".to_string())), None);
    assert_eq!(env.len(), 4);
}

#[test]
fn char_positions_count_bytes() {
    let mut chars = CharPositions::from_str("aé\nb");
    let mut seen = vec![];
    while let Some((position, c)) = chars.next() {
        seen.push((position.offset, c));
    }
    assert_eq!(seen, vec![(0, 'a'), (1, 'é'), (3, '\n'), (4, 'b')]);
}
