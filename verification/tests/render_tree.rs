use language_reporting::{
    BlockComponent, CurriedBlockComponent, CurriedOnceBlockComponent, Document, Each, Join, Line,
    OnceBlockComponent, Render, RenderExt,
};

#[test]
fn test_inline_component() -> ::std::io::Result<()> {
    struct Header {
        code: usize,
        message: &'static str,
    }

    impl Render for Header {
        fn render(self, document: Document) -> Document {
            document.add(self.code.add(": ").add(self.message))
        }
    }

    let code = 1;
    let message = "Something went wrong";

    let document = Document::with(Header { code, message });

    assert_eq!(document.to_string()?, "1: Something went wrong");

    Ok(())
}

#[test]
fn test_block_component() -> ::std::io::Result<()> {
    struct Message {
        code: usize,
        message: &'static str,
        trailing: &'static str,
    }

    impl BlockComponent for Message {
        fn append<F: FnOnce(Document) -> Document>(
            self,
            block: F,
            mut document: Document,
        ) -> Document {
            document = document.add(self.code.add(": ").add(self.message).add(" "));

            document = block(document);

            document = document.add(self.trailing);

            document
        }
    }

    let code = 1;
    let message = "Something went wrong";

    let document = Document::with(CurriedBlockComponent::with(
        Message {
            code,
            message,
            trailing: " -- yikes!",
        },
        |document: Document| document.add("!!! It's really quite bad !!!"),
    ));

    assert_eq!(
        document.to_string()?,
        "1: Something went wrong !!! It's really quite bad !!! -- yikes!"
    );

    Ok(())
}

#[test]
fn test_once_block_component() -> ::std::io::Result<()> {
    struct Message {
        code: usize,
        message: Option<&'static str>,
        trailing: &'static str,
    }

    impl OnceBlockComponent for Message {
        type Item = String;

        fn append<F: FnOnce(String, Document) -> Document>(
            self,
            block: F,
            mut document: Document,
        ) -> Document {
            document = document.add(self.code.add(": "));

            if let Some(message) = self.message {
                document = block(message.to_string(), document);
            }

            document = document.add(" ".add(self.trailing));

            document
        }
    }

    let code = 1;
    let message = Some("Something went wrong");

    let document = Document::with(CurriedOnceBlockComponent::with(
        Message {
            code,
            message,
            trailing: "-- yikes!",
        },
        |message: String, document: Document| {
            document.add(message.add(" ").add("!!! It's really quite bad !!!"))
        },
    ));

    assert_eq!(
        document.to_string()?,
        "1: Something went wrong !!! It's really quite bad !!! -- yikes!"
    );

    Ok(())
}

struct Point(i32, i32);

#[test]
fn test_each() -> ::std::io::Result<()> {
    let items = vec![Point(10, 20), Point(5, 10), Point(6, 42)];

    let document = Document::with(Each(
        items.iter().collect(),
        |item: &Point, document: Document| {
            document.add(Line("Point(".add(item.0).add(",").add(item.1).add(")")))
        },
    ));

    assert_eq!(
        document.to_string()?,
        "Point(10,20)\nPoint(5,10)\nPoint(6,42)\n"
    );

    Ok(())
}

#[test]
fn test_join() -> ::std::io::Result<()> {
    let items = vec![Point(10, 20), Point(5, 10), Point(6, 42)];

    let document = Document::with(Join(
        (items.iter().collect(), "\n"),
        |item: &Point, document: Document| {
            document.add("Point(".add(item.0).add(",").add(item.1).add(")"))
        },
    ));

    assert_eq!(
        document.to_string()?,
        "Point(10,20)\nPoint(5,10)\nPoint(6,42)"
    );

    Ok(())
}

#[test]
fn basic_usage() -> ::std::io::Result<()> {
    let hello = "hello";
    let world = format!("world");
    let answer = 42;

    let document = Document::with(
        hello
            .add(" ")
            .add(world)
            .add(". The answer is ")
            .add(answer),
    );

    assert_eq!(document.to_string()?, "hello world. The answer is 42");

    Ok(())
}
