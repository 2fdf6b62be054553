//! The feed model that every dialect is mapped onto.
use vstd::prelude::*;
use crate::util::document::optional_view;
use crate::util::document::views;
pub use crate::util::mime::MimeType;
pub use crate::util::timestamp::DateTime;

verus! {

/// How the value of a `Text` is to be read.
#[derive(Debug, Clone, Copy, PartialEq, Eq)]
pub enum TextType {
    Text,
    Html,
    Xhtml,
}

/// A piece of text and the kind of markup that it may hold. The value is what
/// the document holds, unchanged.
#[derive(Debug, Clone, PartialEq, Eq)]
pub struct Text {
    pub content_type: TextType,
    pub value: String,
}

/// `Text` over characters.
pub struct TextView {
    pub content_type: TextType,
    pub value: Seq<char>,
}

impl View for Text {
    type V = TextView;

    open spec fn view(&self) -> TextView {
        TextView { content_type: self.content_type, value: self.value@ }
    }
}

/// An author or a contributor.
#[derive(Debug, Clone, PartialEq, Eq)]
pub struct Person {
    pub name: String,
    pub uri: Option<String>,
    pub email: Option<String>,
}

/// `Person` over characters.
pub struct PersonView {
    pub name: Seq<char>,
    pub uri: Option<Seq<char>>,
    pub email: Option<Seq<char>>,
}

impl View for Person {
    type V = PersonView;

    open spec fn view(&self) -> PersonView {
        PersonView {
            name: self.name@,
            uri: optional_view(self.uri),
            email: optional_view(self.email),
        }
    }
}

impl PersonView {
    /// The person of whom only the name is known.
    pub open spec fn named(name: Seq<char>) -> PersonView {
        PersonView { name, uri: None, email: None }
    }
}

impl Person {
    /// The person of whom only the name is known.
    pub fn named(name: String) -> (person: Person)
        ensures
            person@ == PersonView::named(name@),
    {
        Person { name, uri: None, email: None }
    }
}

impl TextView {
    /// Text that may hold HTML.
    pub open spec fn html(value: Seq<char>) -> TextView {
        TextView { content_type: TextType::Html, value }
    }

    /// Text without markup.
    pub open spec fn plain(value: Seq<char>) -> TextView {
        TextView { content_type: TextType::Text, value }
    }
}

impl Text {
    /// Text that may hold HTML.
    pub fn html(value: String) -> (text: Text)
        ensures
            text@ == TextView::html(value@),
    {
        Text { content_type: TextType::Html, value }
    }

    /// Text without markup.
    pub fn plain(value: String) -> (text: Text)
        ensures
            text@ == TextView::plain(value@),
    {
        Text { content_type: TextType::Text, value }
    }
}

/// A reference to another resource.
#[derive(Debug, Clone, PartialEq, Eq)]
pub struct Link {
    pub href: String,
    pub rel: Option<String>,
    pub media_type: Option<String>,
    pub href_lang: Option<String>,
    pub title: Option<String>,
    pub length: Option<u64>,
}

/// `Link` over characters.
pub struct LinkView {
    pub href: Seq<char>,
    pub rel: Option<Seq<char>>,
    pub media_type: Option<Seq<char>>,
    pub href_lang: Option<Seq<char>>,
    pub title: Option<Seq<char>>,
    pub length: Option<u64>,
}

impl View for Link {
    type V = LinkView;

    open spec fn view(&self) -> LinkView {
        LinkView {
            href: self.href@,
            rel: optional_view(self.rel),
            media_type: optional_view(self.media_type),
            href_lang: optional_view(self.href_lang),
            title: optional_view(self.title),
            length: self.length,
        }
    }
}

impl LinkView {
    /// A link of which only the address is known.
    pub open spec fn to(href: Seq<char>) -> LinkView {
        LinkView {
            href,
            rel: None,
            media_type: None,
            href_lang: None,
            title: None,
            length: None,
        }
    }
}

impl Link {
    /// A link of which only the address is known.
    pub fn to(href: String) -> (link: Link)
        ensures
            link@ == LinkView::to(href@),
    {
        Link { href, rel: None, media_type: None, href_lang: None, title: None, length: None }
    }
}

/// A category that a feed or an entry is filed under.
#[derive(Debug, Clone, PartialEq, Eq)]
pub struct Category {
    pub term: String,
    pub scheme: Option<String>,
    pub label: Option<String>,
}

/// `Category` over characters.
pub struct CategoryView {
    pub term: Seq<char>,
    pub scheme: Option<Seq<char>>,
    pub label: Option<Seq<char>>,
}

impl View for Category {
    type V = CategoryView;

    open spec fn view(&self) -> CategoryView {
        CategoryView {
            term: self.term@,
            scheme: optional_view(self.scheme),
            label: optional_view(self.label),
        }
    }
}

/// The program that wrote the feed.
#[derive(Debug, Clone, PartialEq, Eq)]
pub struct Generator {
    pub content: String,
    pub uri: Option<String>,
    pub version: Option<String>,
}

/// `Generator` over characters.
pub struct GeneratorView {
    pub content: Seq<char>,
    pub uri: Option<Seq<char>>,
    pub version: Option<Seq<char>>,
}

impl View for Generator {
    type V = GeneratorView;

    open spec fn view(&self) -> GeneratorView {
        GeneratorView {
            content: self.content@,
            uri: optional_view(self.uri),
            version: optional_view(self.version),
        }
    }
}

/// A picture that stands for the feed.
#[derive(Debug, Clone, PartialEq, Eq)]
pub struct Image {
    pub uri: String,
    pub title: Option<String>,
    pub link: Option<String>,
    pub width: Option<u32>,
    pub height: Option<u32>,
    pub description: Option<String>,
}

/// `Image` over characters.
pub struct ImageView {
    pub uri: Seq<char>,
    pub title: Option<Seq<char>>,
    pub link: Option<Seq<char>>,
    pub width: Option<u32>,
    pub height: Option<u32>,
    pub description: Option<Seq<char>>,
}

impl View for Image {
    type V = ImageView;

    open spec fn view(&self) -> ImageView {
        ImageView {
            uri: self.uri@,
            title: optional_view(self.title),
            link: optional_view(self.link),
            width: self.width,
            height: self.height,
            description: optional_view(self.description),
        }
    }
}

impl ImageView {
    /// A picture of which only the address is known.
    pub open spec fn at(uri: Seq<char>) -> ImageView {
        ImageView {
            uri,
            title: None,
            link: None,
            width: None,
            height: None,
            description: None,
        }
    }
}

impl Image {
    /// A picture of which only the address is known.
    pub fn at(uri: String) -> (image: Image)
        ensures
            image@ == ImageView::at(uri@),
    {
        Image { uri, title: None, link: None, width: None, height: None, description: None }
    }
}

/// The body of an entry: held in the document, or kept elsewhere and linked.
#[derive(Debug, Clone, PartialEq, Eq)]
pub struct Content {
    pub body: Option<String>,
    pub content_type: MimeType,
    pub length: Option<u64>,
    pub src: Option<Link>,
}

/// `Content` over characters.
pub struct ContentView {
    pub body: Option<Seq<char>>,
    pub content_type: Seq<char>,
    pub length: Option<u64>,
    pub src: Option<LinkView>,
}

impl View for Content {
    type V = ContentView;

    open spec fn view(&self) -> ContentView {
        ContentView {
            body: optional_view(self.body),
            content_type: self.content_type@,
            length: self.length,
            src: optional_view(self.src),
        }
    }
}

/// One item of a feed.
#[derive(Debug, Clone, PartialEq, Eq)]
pub struct Entry {
    pub id: String,
    pub title: Option<Text>,
    pub updated: Option<DateTime>,
    pub authors: Vec<Person>,
    pub content: Option<Content>,
    pub links: Vec<Link>,
    pub summary: Option<Text>,
    pub categories: Vec<Category>,
    pub published: Option<DateTime>,
    pub source: Option<String>,
    pub rights: Option<Text>,
}

/// `Entry` over characters, sequences and seconds.
pub struct EntryView {
    pub id: Seq<char>,
    pub title: Option<TextView>,
    pub updated: Option<int>,
    pub authors: Seq<PersonView>,
    pub content: Option<ContentView>,
    pub links: Seq<LinkView>,
    pub summary: Option<TextView>,
    pub categories: Seq<CategoryView>,
    pub published: Option<int>,
    pub source: Option<Seq<char>>,
    pub rights: Option<TextView>,
}

impl View for Entry {
    type V = EntryView;

    open spec fn view(&self) -> EntryView {
        EntryView {
            id: self.id@,
            title: optional_view(self.title),
            updated: optional_view(self.updated),
            authors: views(self.authors@),
            content: optional_view(self.content),
            links: views(self.links@),
            summary: optional_view(self.summary),
            categories: views(self.categories@),
            published: optional_view(self.published),
            source: optional_view(self.source),
            rights: optional_view(self.rights),
        }
    }
}

impl EntryView {
    /// The entry of which nothing is known yet. An empty id stands for none.
    pub open spec fn empty() -> EntryView {
        EntryView {
            id: Seq::empty(),
            title: None,
            updated: None,
            authors: Seq::empty(),
            content: None,
            links: Seq::empty(),
            summary: None,
            categories: Seq::empty(),
            published: None,
            source: None,
            rights: None,
        }
    }
}

impl Entry {
    /// The entry of which nothing is known yet.
    pub fn empty() -> (entry: Entry)
        ensures
            entry@ == EntryView::empty(),
    {
        let entry = Entry {
            id: String::new(),
            title: None,
            updated: None,
            authors: Vec::new(),
            content: None,
            links: Vec::new(),
            summary: None,
            categories: Vec::new(),
            published: None,
            source: None,
            rights: None,
        };
        assert(entry@.authors =~= Seq::empty());
        assert(entry@.links =~= Seq::empty());
        assert(entry@.categories =~= Seq::empty());
        entry
    }
}

/// A feed: what is known of the channel, and its entries in the order of the
/// document.
#[derive(Debug, Clone, PartialEq, Eq)]
pub struct Feed {
    pub id: String,
    pub title: Text,
    pub updated: Option<DateTime>,
    pub authors: Vec<Person>,
    pub description: Option<Text>,
    pub links: Vec<Link>,
    pub categories: Vec<Category>,
    pub contributors: Vec<Person>,
    pub generator: Option<Generator>,
    pub icon: Option<Image>,
    pub logo: Option<Image>,
    pub rights: Option<Text>,
    pub language: Option<String>,
    pub entries: Vec<Entry>,
}

/// `Feed` over characters, sequences and seconds.
pub struct FeedView {
    pub id: Seq<char>,
    pub title: TextView,
    pub updated: Option<int>,
    pub authors: Seq<PersonView>,
    pub description: Option<TextView>,
    pub links: Seq<LinkView>,
    pub categories: Seq<CategoryView>,
    pub contributors: Seq<PersonView>,
    pub generator: Option<GeneratorView>,
    pub icon: Option<ImageView>,
    pub logo: Option<ImageView>,
    pub rights: Option<TextView>,
    pub language: Option<Seq<char>>,
    pub entries: Seq<EntryView>,
}

impl View for Feed {
    type V = FeedView;

    open spec fn view(&self) -> FeedView {
        FeedView {
            id: self.id@,
            title: self.title@,
            updated: optional_view(self.updated),
            authors: views(self.authors@),
            description: optional_view(self.description),
            links: views(self.links@),
            categories: views(self.categories@),
            contributors: views(self.contributors@),
            generator: optional_view(self.generator),
            icon: optional_view(self.icon),
            logo: optional_view(self.logo),
            rights: optional_view(self.rights),
            language: optional_view(self.language),
            entries: views(self.entries@),
        }
    }
}

impl FeedView {
    /// The feed of which nothing is known yet. An empty id stands for none.
    pub open spec fn empty() -> FeedView {
        FeedView {
            id: Seq::empty(),
            title: TextView { content_type: TextType::Text, value: Seq::empty() },
            updated: None,
            authors: Seq::empty(),
            description: None,
            links: Seq::empty(),
            categories: Seq::empty(),
            contributors: Seq::empty(),
            generator: None,
            icon: None,
            logo: None,
            rights: None,
            language: None,
            entries: Seq::empty(),
        }
    }
}

impl Feed {
    /// The feed of which nothing is known yet.
    pub fn empty() -> (feed: Feed)
        ensures
            feed@ == FeedView::empty(),
    {
        let feed = Feed {
            id: String::new(),
            title: Text { content_type: TextType::Text, value: String::new() },
            updated: None,
            authors: Vec::new(),
            description: None,
            links: Vec::new(),
            categories: Vec::new(),
            contributors: Vec::new(),
            generator: None,
            icon: None,
            logo: None,
            rights: None,
            language: None,
            entries: Vec::new(),
        };
        assert(feed@.authors =~= Seq::empty());
        assert(feed@.links =~= Seq::empty());
        assert(feed@.categories =~= Seq::empty());
        assert(feed@.contributors =~= Seq::empty());
        assert(feed@.entries =~= Seq::empty());
        feed
    }
}

} // verus!
