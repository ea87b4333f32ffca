use mdbook_renderkit::docx_numbering::{
    abstract_numbering, numbering_definitions, numbering_instance, numbering_level,
    ordered_numbering_instance, NumberFormat, NumberingInstance,
};
use mdbook_renderkit::docx_registry::{DocxRegistry, OrderedListDefinition};

#[test]
fn levels_of_list_formats() {
    let l = numbering_level(2, NumberFormat::Decimal, "%1.");
    assert_eq!(l.level, 2);
    assert_eq!(l.format, NumberFormat::Decimal);
    assert_eq!(l.text, "%3.");
    assert_eq!(l.start, 1);
    assert_eq!(l.indent_left, 1260);
    assert_eq!(l.hanging, 240);
    let l = numbering_level(0, NumberFormat::Bullet, "[x]");
    assert_eq!(l.text, "[x]");
    assert_eq!(l.indent_left, 420);
    let a = abstract_numbering(4, NumberFormat::Bullet, "[ ]");
    assert_eq!(a.id, 4);
    assert_eq!(a.levels.len(), 9);
    assert_eq!(a.levels[8].level, 8);
    assert_eq!(a.levels[8].indent_left, 3780);
}

#[test]
fn numbering_instances() {
    assert_eq!(
        numbering_instance(3, 3),
        NumberingInstance { number_id: 3, abstract_id: 3, start_override: None }
    );
    let d = OrderedListDefinition { number_id: 12, level: 11, start: 5_000_000_000 };
    assert_eq!(
        ordered_numbering_instance(&d),
        NumberingInstance { number_id: 12, abstract_id: 2, start_override: Some((8, i32::MAX)) }
    );
    let d = OrderedListDefinition { number_id: 10, level: 1, start: 3 };
    assert_eq!(
        ordered_numbering_instance(&d),
        NumberingInstance { number_id: 10, abstract_id: 2, start_override: Some((1, 3)) }
    );
}

#[test]
fn numbering_part_lists_formats_then_instances() {
    let mut reg = DocxRegistry::new();
    let first = reg.ordered_numbering_id(0, 1);
    let second = reg.ordered_numbering_id(2, 7);
    assert_eq!((first, second), (10, 11));
    let defs = vec![
        OrderedListDefinition { number_id: first, level: 0, start: 1 },
        OrderedListDefinition { number_id: second, level: 2, start: 7 },
    ];
    let n = numbering_definitions(&defs);
    assert_eq!(n.abstracts.iter().map(|a| a.id).collect::<Vec<_>>(), vec![1, 2, 3, 4]);
    assert_eq!(n.abstracts[0].levels[0].text, "-");
    assert_eq!(n.abstracts[1].levels[1].text, "%2.");
    assert_eq!(n.abstracts[2].levels[5].text, "[x]");
    assert_eq!(n.abstracts[3].levels[0].text, "[ ]");
    assert_eq!(
        n.instances,
        vec![
            NumberingInstance { number_id: 1, abstract_id: 1, start_override: None },
            NumberingInstance { number_id: 3, abstract_id: 3, start_override: None },
            NumberingInstance { number_id: 4, abstract_id: 4, start_override: None },
            NumberingInstance { number_id: 10, abstract_id: 2, start_override: Some((0, 1)) },
            NumberingInstance { number_id: 11, abstract_id: 2, start_override: Some((2, 7)) },
        ]
    );
}
