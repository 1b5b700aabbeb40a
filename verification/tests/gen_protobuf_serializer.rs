use asn1rs::gen::rust::code::{Block, Code, Function};
use asn1rs::gen::rust::protobuf::ProtobufSerializer;
use asn1rs::model::rust::RustType;
use asn1rs::model::Range;

fn render(codes: &[Code], depth: usize, out: &mut Vec<String>) {
    for code in codes {
        match code {
            Code::Line(line) => out.push(format!("{}{}", "  ".repeat(depth), line)),
            Code::Block(Block { before, body, after }) => {
                out.push(format!("{}{} {{", "  ".repeat(depth), before));
                render(body, depth + 1, out);
                out.push(format!(
                    "{}}}{}",
                    "  ".repeat(depth),
                    after.clone().unwrap_or_default()
                ));
            }
        }
    }
}

fn lines(function: &Function) -> Vec<String> {
    let mut out = Vec::new();
    render(&function.body, 0, &mut out);
    out
}

fn fields() -> Vec<(String, RustType)> {
    vec![
        ("small".into(), RustType::U8(Range(0, 255))),
        ("name".into(), RustType::Option(Box::new(RustType::String))),
        ("others".into(), RustType::Vec(Box::new(RustType::Complex("Other".into())))),
    ]
}

#[test]
fn protobuf_read_fn_of_a_struct() {
    let mut function = Function::new();
    ProtobufSerializer::impl_read_fn_for_struct(&mut function, "Simple", &fields());
    assert_eq!(
        vec![
            "let mut read_small = None;",
            "let mut read_name = None;",
            "let mut read_others = None;",
            "while let Ok(tag) = reader.read_tag() {",
            "  match tag.0 {",
            "    0 => break,",
            "    1 => read_small = Some(reader.read_uint32()?),",
            "    2 => read_name = Some(reader.read_string()?),",
            "    3 => read_others.get_or_insert_with(Vec::default).push( {",
            "      if tag.1 == ProtobufFormat::LengthDelimited {",
            "        let bytes = reader.read_bytes()?;",
            "        Other::read_protobuf(&mut &bytes[..] as &mut ProtobufReader)?",
            "      }",
            "      else {",
            "        Other::read_protobuf(reader)?",
            "      }",
            "    }),",
            "    _ => return Err(ProtobufError::invalid_tag_received(tag.0)),",
            "  }",
            "}",
            "Ok(Simple {",
            "  small: read_small.map(|v| v as u8).unwrap_or_default(),",
            "  name: read_name,",
            "  others: read_others.unwrap_or_default(),",
            "})",
        ],
        lines(&function)
    );
}

#[test]
fn protobuf_write_fn_of_a_struct() {
    let mut function = Function::new();
    ProtobufSerializer::impl_write_fn_for_struct(&mut function, &fields());
    assert_eq!(
        vec![
            " {",
            "  writer.write_tagged_uint32(1, u32::from(self.small))?;",
            "}",
            "if let Some(ref name) = self.name {",
            "  writer.write_tagged_string(2, name)?;",
            "}",
            " {",
            "  for value in &self.others {",
            "    writer.write_tag(3, ProtobufFormat::LengthDelimited)?;",
            "    let mut bytes = Vec::new();",
            "    value.write_protobuf(&mut bytes as &mut ProtobufWriter)?;",
            "    writer.write_bytes(&bytes[..])?;",
            "  }",
            "}",
        ],
        lines(&function)
    );
}
