use asn1rs::gen::rust::code::{Block, Code, Function};
use asn1rs::gen::rust::generator_field_name;
use asn1rs::gen::rust::uper::{Member, UperSerializer};
use asn1rs::model::rust::{Rust, RustType};
use asn1rs::model::{Definition, Range};

fn render(codes: &[Code], depth: usize, out: &mut Vec<String>) {
    for code in codes {
        match code {
            Code::Line(line) => out.push(format!("{}{}", "  ".repeat(depth), line)),
            Code::Block(Block { before, body, after }) => {
                out.push(format!("{}{} {{", "  ".repeat(depth), before));
                render(body, depth + 1, out);
                out.push(format!(
                    "{}}}{}",
                    "  ".repeat(depth),
                    after.clone().unwrap_or_default()
                ));
            }
        }
    }
}

fn lines(function: &Function) -> Vec<String> {
    let mut out = Vec::new();
    render(&function.body, 0, &mut out);
    out
}

fn simple() -> Definition<Rust> {
    Definition(
        "Simple".into(),
        Rust::Struct(vec![
            ("small".into(), RustType::U8(Range(0, 255))),
            ("opt".into(), RustType::Option(Box::new(RustType::String))),
            ("list".into(), RustType::Vec(Box::new(RustType::Complex("Other".into())))),
        ]),
    )
}

#[test]
fn uper_write_fn_of_a_struct() {
    let mut function = Function::new();
    UperSerializer::impl_write_fn(&mut function, &simple());
    assert_eq!(
        vec![
            "writer.write_bit(self.opt.is_some())?;",
            " {",
            "  writer.write_int(i64::from(self.small), (i64::from(Self::small_min()), i64::from(Self::small_max())))?;",
            "  if let Some(ref opt) = self.opt {",
            "    writer.write_utf8_string(&opt)?;",
            "  }",
            "  writer.write_length_determinant(self.list.len())?;",
            "  for list in &self.list {",
            "    list.write_uper(writer)?;",
            "  }",
            "}",
            "Ok(())",
        ],
        lines(&function)
    );
}

#[test]
fn uper_read_fn_of_a_struct() {
    let mut function = Function::new();
    UperSerializer::impl_read_fn(&mut function, &simple());
    assert_eq!(
        vec![
            "let opt = reader.read_bit()?;",
            "let mut me = Self::default();",
            "me.small =  {",
            "  reader.read_int((i64::from(Self::small_min()), i64::from(Self::small_max())))? as u8",
            "};",
            "me.opt =  {",
            "  if opt {",
            "    Some( {",
            "      reader.read_utf8_string()?",
            "    })",
            "  }",
            "  else {",
            "    None",
            "  }",
            "};",
            "me.list =  {",
            "  let len = reader.read_length_determinant()?;",
            "  let mut values = Vec::with_capacity(len);",
            "  for _ in 0..len {",
            "    values.push( {",
            "      Other::read_uper(reader)?",
            "    });",
            "  }",
            "  values",
            "};",
            "Ok(me)",
        ],
        lines(&function)
    );
}

#[test]
fn uper_fns_of_enums() {
    let definition = Definition("Color".into(), Rust::Enum(vec!["Red".into(), "Blue".into()]));
    let mut write = Function::new();
    UperSerializer::impl_write_fn(&mut write, &definition);
    assert_eq!(
        vec![
            "match self {",
            "  Color::Red => writer.write_int(0, (0, 1))?,",
            "  Color::Blue => writer.write_int(1, (0, 1))?,",
            "}",
            "Ok(())",
        ],
        lines(&write)
    );
    let mut read = Function::new();
    UperSerializer::impl_read_fn(&mut read, &definition);
    assert_eq!(
        vec![
            "let id = reader.read_int((0, 1))?;",
            "match id {",
            "  0 => Ok(Color::Red),",
            "  1 => Ok(Color::Blue),",
            "  _ => Err(UperError::ValueNotInRange(id, 0, 1))",
            "}",
        ],
        lines(&read)
    );
}

#[test]
fn uper_fns_of_data_enums_and_tuple_structs() {
    let definition = Definition(
        "Either".into(),
        Rust::DataEnum(vec![("Flag".into(), RustType::Bool), ("Count".into(), RustType::U64(None))]),
    );
    let mut write = Function::new();
    UperSerializer::impl_write_fn(&mut write, &definition);
    assert_eq!(
        vec![
            "match self {",
            "  Either::Flag(value) => {",
            "    writer.write_int(0, (0, 1))?;",
            "    writer.write_bit(*value)?;",
            "  }",
            "  Either::Count(value) => {",
            "    writer.write_int(1, (0, 1))?;",
            "    writer.write_int_max(*value)?;",
            "  }",
            "}",
            "Ok(())",
        ],
        lines(&write)
    );
    let tuple = Definition("Bytes".into(), Rust::TupleStruct(RustType::VecU8));
    let mut write = Function::new();
    UperSerializer::impl_write_fn(&mut write, &tuple);
    assert_eq!(
        vec![" {", "  writer.write_octet_string(&&self.0[..], None)?;", "}", "Ok(())"],
        lines(&write)
    );
    let mut read = Function::new();
    UperSerializer::impl_read_fn(&mut read, &tuple);
    assert_eq!(
        vec!["Ok(Bytes( {", "  reader.read_octet_string(None)?", "}))"],
        lines(&read)
    );
}

#[test]
fn uper_members_and_field_names() {
    assert_eq!("&*self.x", Member::Instance("x".into(), true, true).to_string());
    assert_eq!("Self::y", Member::Static("y".into(), false, false).to_string());
    assert_eq!("z", Member::Local("z".into(), true, false).no_ref().to_string());
    let mut m = Member::Local("a".into(), false, true);
    m.name_mut("b".into());
    assert_eq!("*b", m.to_string());
    assert!(m.prefix_deref());
    assert!(!m.prefix_ref());
    assert_eq!("type_", generator_field_name("type", true));
    assert_eq!("type", generator_field_name("type", false));
    assert_eq!("a_b", generator_field_name("a-b", true));
}
