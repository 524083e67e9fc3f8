//! From wishlist markup to book records: every product block of the page
//! gives one record, or the extraction fails as a whole.

use vstd::prelude::*;
use vstd::string::StringExecFns;
use select::document::Document;
use crate::book::{books_view, Book, BookView};
use crate::markup::{
    carries_class, class_nodes, class_nodes_below, document_nodes, find_class,
    find_class_below, find_texts_below, is_below, is_parsed, lemma_positions_in_order,
    parse_document, parseable, parsed_nodes, texts_below, MarkupNode,
};
use crate::text::{concat, normalize, normalized, strip_prefix, strip_repeated};

verus! {

/// The class names by which the page marks a product block and, inside a
/// block, each field of a book.
#[derive(Clone, Debug, PartialEq, Eq)]
pub struct Selectors {
    pub block: String,
    pub title: String,
    pub author: String,
    pub price: String,
    pub discount: String,
}

/// The mathematical value of [`Selectors`].
pub ghost struct SelectorsView {
    pub block: Seq<char>,
    pub title: Seq<char>,
    pub author: Seq<char>,
    pub price: Seq<char>,
    pub discount: Seq<char>,
}

impl View for Selectors {
    type V = SelectorsView;

    open spec fn view(&self) -> SelectorsView {
        SelectorsView {
            block: self.block@,
            title: self.title@,
            author: self.author@,
            price: self.price@,
            discount: self.discount@,
        }
    }
}

impl Selectors {
    /// The class names of the wishlist page as it is known.
    pub fn standard() -> (selectors: Selectors)
        ensures
            selectors@ == (SelectorsView {
                block: "prod-details-sec"@,
                title: "product-shelf-title"@,
                author: "product-shelf-author"@,
                price: "current-price"@,
                discount: "discount-amount-text"@,
            }),
    {
        Selectors {
            block: String::from_str("prod-details-sec"),
            title: String::from_str("product-shelf-title"),
            author: String::from_str("product-shelf-author"),
            price: String::from_str("current-price"),
            discount: String::from_str("discount-amount-text"),
        }
    }
}

/// The prefix that the page puts before an author's name.
pub open spec fn author_prefix() -> Seq<char> {
    "By: "@
}

/// A field that every product block must have.
#[derive(Clone, Copy, Debug, PartialEq, Eq, Structural)]
pub enum Field {
    Title,
    Author,
    Price,
}

/// A product block lacks a required field: the field's selector finds
/// nothing in the block, or what it finds holds no text.
#[derive(Clone, Copy, Debug, PartialEq, Eq, Structural)]
pub struct ExtractionError {
    /// The position of the block among the product blocks of the page.
    pub block: usize,
    /// The first required field that the block lacks.
    pub field: Field,
}

/// What one product block shows of a book: for each field the text
/// fragments of the first subtree that the field's selector finds in the
/// block, or nothing where it finds none.
#[derive(Clone, Debug, PartialEq, Eq)]
pub struct Block {
    pub title: Option<Vec<String>>,
    pub author: Option<Vec<String>>,
    pub price: Option<Vec<String>>,
    pub discount: Option<Vec<String>>,
}

/// The mathematical value of a [`Block`].
pub ghost struct BlockView {
    pub title: Option<Seq<Seq<char>>>,
    pub author: Option<Seq<Seq<char>>>,
    pub price: Option<Seq<Seq<char>>>,
    pub discount: Option<Seq<Seq<char>>>,
}

/// The value of the fragments of one field.
pub open spec fn fragments_view(fragments: Option<Vec<String>>) -> Option<Seq<Seq<char>>> {
    match fragments {
        Some(list) => Some(list.deep_view()),
        None => None,
    }
}

impl View for Block {
    type V = BlockView;

    open spec fn view(&self) -> BlockView {
        BlockView {
            title: fragments_view(self.title),
            author: fragments_view(self.author),
            price: fragments_view(self.price),
            discount: fragments_view(self.discount),
        }
    }
}

/// The values of a list of blocks.
pub open spec fn blocks_view(blocks: Seq<Block>) -> Seq<BlockView> {
    blocks.map_values(|block: Block| block@)
}

impl BlockView {
    /// The title that the block shows: the normal form of the joined
    /// fragments.
    pub open spec fn title_text(self) -> Seq<char> {
        normalized(concat(self.title->0))
    }

    /// The author that the block shows: the normal form of the joined
    /// fragments, without the prefix.
    pub open spec fn author_text(self) -> Seq<char> {
        strip_repeated(normalized(concat(self.author->0)), author_prefix())
    }

    /// The price that the block shows: the normal form of the joined
    /// fragments.
    pub open spec fn price_text(self) -> Seq<char> {
        normalized(concat(self.price->0))
    }

    /// Whether the block lacks `field`: nothing was found for it, or what
    /// was found shows an empty text.
    pub open spec fn lacks(self, field: Field) -> bool {
        match field {
            Field::Title => self.title is None || self.title_text().len() == 0,
            Field::Author => self.author is None || self.author_text().len() == 0,
            Field::Price => self.price is None || self.price_text().len() == 0,
        }
    }

    /// The first required field that the block lacks, in the order title,
    /// author, price.
    pub open spec fn missing(self) -> Option<Field> {
        if self.lacks(Field::Title) {
            Some(Field::Title)
        } else if self.lacks(Field::Author) {
            Some(Field::Author)
        } else if self.lacks(Field::Price) {
            Some(Field::Price)
        } else {
            None
        }
    }

    /// The book that a block with all required fields shows. A discount
    /// that was found is kept as the normal form of its joined fragments.
    pub open spec fn book(self) -> BookView {
        BookView {
            title: self.title_text(),
            author: self.author_text(),
            current_price: self.price_text(),
            discount_percentage: match self.discount {
                Some(fragments) => Some(normalized(concat(fragments))),
                None => None,
            },
        }
    }
}

/// Whether `outcome` is what the extraction owes for `blocks`: the books of
/// all blocks in order when none lacks a required field, else the position
/// of the first block that does, with the field it lacks.
pub open spec fn is_extraction(
    blocks: Seq<BlockView>,
    outcome: Result<Seq<BookView>, ExtractionError>,
) -> bool {
    match outcome {
        Ok(books) => {
            &&& forall|i: int| 0 <= i < blocks.len() ==> (#[trigger] blocks[i]).missing() is None
            &&& books == blocks.map_values(|block: BlockView| block.book())
        },
        Err(error) => {
            &&& error.block < blocks.len()
            &&& blocks[error.block as int].missing() == Some(error.field)
            &&& forall|i: int| 0 <= i < error.block ==> (#[trigger] blocks[i]).missing() is None
        },
    }
}

/// The value of an extraction's outcome.
pub open spec fn outcome_view(outcome: Result<Vec<Book>, ExtractionError>) -> Result<
    Seq<BookView>,
    ExtractionError,
> {
    match outcome {
        Ok(books) => Ok(books_view(books@)),
        Err(error) => Err(error),
    }
}

/// The fragments that a field's selector gives in the block at `block`:
/// those of the first node below the block that carries `class`.
pub open spec fn field_of(nodes: Seq<MarkupNode>, block: usize, class: Seq<char>) -> Option<
    Seq<Seq<char>>,
> {
    let found = class_nodes_below(nodes, block, class);
    if found.len() > 0 {
        Some(texts_below(nodes, found[0]))
    } else {
        None
    }
}

/// What the block at `block` shows under `selectors`.
pub open spec fn block_of(nodes: Seq<MarkupNode>, block: usize, selectors: SelectorsView) -> BlockView {
    BlockView {
        title: field_of(nodes, block, selectors.title),
        author: field_of(nodes, block, selectors.author),
        price: field_of(nodes, block, selectors.price),
        discount: field_of(nodes, block, selectors.discount),
    }
}

/// The product blocks of a document under `selectors`, in document order.
pub open spec fn blocks_of(nodes: Seq<MarkupNode>, selectors: SelectorsView) -> Seq<BlockView> {
    class_nodes(nodes, selectors.block).map_values(|block: usize| block_of(nodes, block, selectors))
}

/// Builds the book that one block shows, or names the first required field
/// that the block lacks. A book that is handed back has a title, an author
/// and a price that are not empty.
pub fn build_book(block: &Block) -> (outcome: Result<Book, Field>)
    ensures
        match outcome {
            Ok(book) => block@.missing() is None && book@ == block@.book() && book@.is_complete(),
            Err(field) => block@.missing() == Some(field),
        },
{
    let title = match &block.title {
        Some(fragments) => normalize(fragments),
        None => { return Err(Field::Title); },
    };
    if title.as_str().is_empty() {
        return Err(Field::Title);
    }
    let author = match &block.author {
        Some(fragments) => strip_prefix(normalize(fragments).as_str(), "By: "),
        None => { return Err(Field::Author); },
    };
    if author.as_str().is_empty() {
        return Err(Field::Author);
    }
    let price = match &block.price {
        Some(fragments) => normalize(fragments),
        None => { return Err(Field::Price); },
    };
    if price.as_str().is_empty() {
        return Err(Field::Price);
    }
    let discount = match &block.discount {
        Some(fragments) => Some(normalize(fragments)),
        None => None,
    };
    Ok(Book::new(title, author, price, discount))
}

/// Builds the books of all blocks, in order. The first block that lacks a
/// required field fails the whole extraction: no book is handed back then.
pub fn books_from_blocks(blocks: &Vec<Block>) -> (outcome: Result<Vec<Book>, ExtractionError>)
    ensures
        is_extraction(blocks_view(blocks@), outcome_view(outcome)),
{
    let mut books: Vec<Book> = Vec::new();
    let mut i: usize = 0;
    while i < blocks.len()
        invariant
            i <= blocks.len(),
            books@.len() == i,
            forall|j: int| 0 <= j < i ==> (#[trigger] blocks_view(blocks@)[j]).missing() is None,
            forall|j: int| 0 <= j < i ==> (#[trigger] books@[j])@ == blocks_view(blocks@)[j].book(),
        decreases blocks.len() - i,
    {
        assert(blocks_view(blocks@)[i as int] == blocks[i as int]@);
        match build_book(&blocks[i]) {
            Ok(book) => {
                books.push(book);
            },
            Err(field) => {
                return Err(ExtractionError { block: i, field });
            },
        }
        i += 1;
    }
    assert(books_view(books@) == blocks_view(blocks@).map_values(|block: BlockView| block.book()));
    Ok(books)
}

/// The text fragments of the first node below `block` that carries `class`,
/// or nothing where no node does.
pub(crate) fn extract_text(document: &Document, block: usize, class: &str) -> (fragments: Option<
    Vec<String>,
>)
    requires
        is_parsed(*document),
        block < document_nodes(*document).len(),
    ensures
        fragments_view(fragments) == field_of(document_nodes(*document), block, class@),
{
    let found = find_class_below(document, block, class);
    if found.len() > 0 {
        Some(find_texts_below(document, found[0]))
    } else {
        None
    }
}

/// Reads the product blocks of a document.
pub(crate) fn select_blocks(document: &Document, selectors: &Selectors) -> (blocks: Vec<Block>)
    requires
        is_parsed(*document),
    ensures
        blocks_view(blocks@) == blocks_of(document_nodes(*document), selectors@),
{
    let ghost nodes = document_nodes(*document);
    let found = find_class(document, selectors.block.as_str());
    let mut blocks: Vec<Block> = Vec::new();
    let mut i: usize = 0;
    while i < found.len()
        invariant
            i <= found.len(),
            is_parsed(*document),
            nodes == document_nodes(*document),
            forall|j: int| 0 <= j < found.len() ==> found@[j] < nodes.len(),
            blocks@.len() == i,
            forall|j: int| 0 <= j < i ==> (#[trigger] blocks@[j])@ == block_of(nodes, found@[j], selectors@),
        decreases found.len() - i,
    {
        let at = found[i];
        let block = Block {
            title: extract_text(document, at, selectors.title.as_str()),
            author: extract_text(document, at, selectors.author.as_str()),
            price: extract_text(document, at, selectors.price.as_str()),
            discount: extract_text(document, at, selectors.discount.as_str()),
        };
        blocks.push(block);
        i += 1;
    }
    assert(blocks_view(blocks@) == blocks_of(nodes, selectors@));
    blocks
}

/// Extracts the books of a wishlist page: one per product block, in
/// document order. A block that lacks its title, author or price fails the
/// extraction; a block without a discount gives a book without one. The
/// page must be short enough for the parser, which `is_parseable` tests.
pub fn extract_books(markup: &str, selectors: &Selectors) -> (outcome: Result<
    Vec<Book>,
    ExtractionError,
>)
    requires
        parseable(markup@),
    ensures
        is_extraction(blocks_of(parsed_nodes(markup@), selectors@), outcome_view(outcome)),
{
    let document = parse_document(markup);
    let blocks = select_blocks(&document, selectors);
    books_from_blocks(&blocks)
}

/// For given blocks there is one outcome of the extraction.
pub proof fn lemma_extraction_unique(
    blocks: Seq<BlockView>,
    first: Result<Seq<BookView>, ExtractionError>,
    second: Result<Seq<BookView>, ExtractionError>,
)
    requires
        is_extraction(blocks, first),
        is_extraction(blocks, second),
    ensures
        first == second,
{
    match (first, second) {
        (Err(a), Err(b)) => {
            if a.block < b.block {
                assert(blocks[a.block as int].missing() is None);
            } else if b.block < a.block {
                assert(blocks[b.block as int].missing() is None);
            }
        },
        (Ok(_), Err(b)) => {
            assert(blocks[b.block as int].missing() is None);
        },
        (Err(a), Ok(_)) => {
            assert(blocks[a.block as int].missing() is None);
        },
        (Ok(_), Ok(_)) => {},
    }
}

/// The product blocks of a document are those of the nodes that carry the
/// block class: one block for each such node, in the order of the nodes in
/// the document. Books therefore come in document order.
pub proof fn lemma_blocks_in_document_order(nodes: Seq<MarkupNode>, selectors: SelectorsView)
    requires
        nodes.len() <= usize::MAX,
    ensures
        blocks_of(nodes, selectors).len() == class_nodes(nodes, selectors.block).len(),
        forall|i: int|
            0 <= i < blocks_of(nodes, selectors).len() ==> {
                let at = class_nodes(nodes, selectors.block)[i];
                &&& at < nodes.len()
                &&& carries_class(nodes[at as int], selectors.block)
                &&& #[trigger] blocks_of(nodes, selectors)[i] == block_of(nodes, at, selectors)
            },
        forall|i: int, j: int|
            0 <= i < j < class_nodes(nodes, selectors.block).len() ==> class_nodes(
                nodes,
                selectors.block,
            )[i] < class_nodes(nodes, selectors.block)[j],
        forall|at: int|
            0 <= at < nodes.len() && carries_class(#[trigger] nodes[at], selectors.block)
                ==> class_nodes(nodes, selectors.block).contains(at as usize),
{
    let wanted = |at: int| carries_class(nodes[at], selectors.block);
    lemma_positions_in_order(wanted, nodes.len());
    assert forall|at: int|
        0 <= at < nodes.len() && carries_class(
            #[trigger] nodes[at],
            selectors.block,
        ) implies class_nodes(nodes, selectors.block).contains(at as usize) by {
        assert(wanted(at));
    }
}

/// Whether `at` is the position of the first node below the node at
/// `block` that carries `class`.
pub open spec fn is_first_below(nodes: Seq<MarkupNode>, block: usize, class: Seq<char>, at: int) -> bool {
    &&& 0 <= at < nodes.len()
    &&& is_below(nodes, at, block as int)
    &&& carries_class(nodes[at], class)
    &&& forall|before: int|
        0 <= before < at && is_below(nodes, before, block as int) ==> !carries_class(
            #[trigger] nodes[before],
            class,
        )
}

/// A field is absent exactly when no node below the block carries its
/// class. Otherwise the first such node in document order counts, whatever
/// follows it: the field holds the texts of the text nodes below that node.
pub proof fn lemma_field_of_first(nodes: Seq<MarkupNode>, block: usize, class: Seq<char>)
    requires
        nodes.len() <= usize::MAX,
    ensures
        field_of(nodes, block, class) is None <==> forall|at: int|
            0 <= at < nodes.len() && is_below(nodes, at, block as int) ==> !carries_class(
                #[trigger] nodes[at],
                class,
            ),
        forall|at: int|
            is_first_below(nodes, block, class, at) ==> field_of(nodes, block, class) == Some(
                texts_below(nodes, at as usize),
            ),
{
    let wanted = |at: int| is_below(nodes, at, block as int) && carries_class(nodes[at], class);
    let found = class_nodes_below(nodes, block, class);
    lemma_positions_in_order(wanted, nodes.len());
    if found.len() > 0 {
        assert(wanted(found[0] as int));
    } else {
        assert forall|at: int|
            0 <= at < nodes.len() && is_below(nodes, at, block as int) implies !carries_class(
            #[trigger] nodes[at],
            class,
        ) by {
            if carries_class(nodes[at], class) {
                assert(wanted(at));
                assert(found.contains(at as usize));
            }
        }
    }
    assert forall|at: int| is_first_below(nodes, block, class, at) implies field_of(
        nodes,
        block,
        class,
    ) == Some(texts_below(nodes, at as usize)) by {
        assert(wanted(at));
        assert(found.contains(at as usize));
        let k = choose|k: int| 0 <= k < found.len() && found[k] == at as usize;
        if k > 0 {
            assert(found[0] < found[k]);
            assert(wanted(found[0] as int));
            assert(!carries_class(nodes[found[0] as int], class));
        }
    }
}

/// Every book of a successful extraction has a title, an author and a
/// price that are not empty.
pub proof fn lemma_extracted_books_complete(blocks: Seq<BlockView>, books: Seq<BookView>)
    requires
        is_extraction(blocks, Ok(books)),
    ensures
        books.len() == blocks.len(),
        forall|i: int| 0 <= i < books.len() ==> (#[trigger] books[i]).is_complete(),
{
    assert forall|i: int| 0 <= i < books.len() implies (#[trigger] books[i]).is_complete() by {
        assert(blocks[i].missing() is None);
    }
}

} // verus!
