//! Layout configuration and its validity.

use vstd::prelude::*;

verus! {

/// Default number of wrapped lines in the body of one page.
pub const DEFAULT_PAGE_HEIGHT_LINES: usize = 48;

/// Default number of columns at which a line is wrapped.
pub const DEFAULT_WRAP_WIDTH: usize = 85;

/// Default number of spaces that replace one tab character.
pub const DEFAULT_TAB_WIDTH: usize = 4;

/// The mathematical content of a [`LayoutConfig`].
pub struct LayoutParams {
    pub page_height_lines: nat,
    pub wrap_width: nat,
    pub tab_width: nat,
    pub show_line_numbers: bool,
}

impl LayoutParams {
    /// A page holds at least one line and a line at least one column.
    pub open spec fn valid(self) -> bool {
        self.page_height_lines > 0 && self.wrap_width > 0
    }
}

/// Why a configuration was refused.
#[derive(Clone, Copy, Debug, PartialEq, Eq, Structural)]
pub enum ConfigError {
    /// `page_height_lines` was zero.
    ZeroPageHeight,
    /// `wrap_width` was zero.
    ZeroWrapWidth,
}

/// Layout options.  Every value of this type is valid: its page height and
/// its wrap width are positive.
#[derive(Clone, Copy, Debug)]
pub struct LayoutConfig {
    page_height_lines: usize,
    wrap_width: usize,
    tab_width: usize,
    show_line_numbers: bool,
}

impl View for LayoutConfig {
    type V = LayoutParams;

    closed spec fn view(&self) -> LayoutParams {
        LayoutParams {
            page_height_lines: self.page_height_lines as nat,
            wrap_width: self.wrap_width as nat,
            tab_width: self.tab_width as nat,
            show_line_numbers: self.show_line_numbers,
        }
    }
}

impl LayoutConfig {
    #[verifier::type_invariant]
    spec fn well_formed(self) -> bool {
        self.page_height_lines > 0 && self.wrap_width > 0
    }

    /// Builds a configuration, refusing a zero page height first and a zero
    /// wrap width second.
    pub fn new(
        page_height_lines: usize,
        wrap_width: usize,
        tab_width: usize,
        show_line_numbers: bool,
    ) -> (r: Result<LayoutConfig, ConfigError>)
        ensures
            page_height_lines == 0 ==> r == Err::<LayoutConfig, ConfigError>(
                ConfigError::ZeroPageHeight,
            ),
            page_height_lines > 0 && wrap_width == 0 ==> r == Err::<LayoutConfig, ConfigError>(
                ConfigError::ZeroWrapWidth,
            ),
            page_height_lines > 0 && wrap_width > 0 ==> r is Ok && r->Ok_0@ == (LayoutParams {
                page_height_lines: page_height_lines as nat,
                wrap_width: wrap_width as nat,
                tab_width: tab_width as nat,
                show_line_numbers,
            }),
    {
        if page_height_lines == 0 {
            Err(ConfigError::ZeroPageHeight)
        } else if wrap_width == 0 {
            Err(ConfigError::ZeroWrapWidth)
        } else {
            Ok(LayoutConfig { page_height_lines, wrap_width, tab_width, show_line_numbers })
        }
    }

    /// Maximum number of wrapped lines in the body of one page.
    pub fn page_height_lines(&self) -> (r: usize)
        ensures
            r == self@.page_height_lines,
            r > 0,
    {
        proof {
            use_type_invariant(self);
        }
        self.page_height_lines
    }

    /// Maximum number of columns of a wrapped line.
    pub fn wrap_width(&self) -> (r: usize)
        ensures
            r == self@.wrap_width,
            r > 0,
    {
        proof {
            use_type_invariant(self);
        }
        self.wrap_width
    }

    /// Number of spaces that replace one tab character.
    pub fn tab_width(&self) -> (r: usize)
        ensures
            r == self@.tab_width,
    {
        self.tab_width
    }

    /// Whether the first segment of each logical line carries its number.
    pub fn show_line_numbers(&self) -> (r: bool)
        ensures
            r == self@.show_line_numbers,
    {
        self.show_line_numbers
    }
}

impl Default for LayoutConfig {
    /// 48 lines per page, 85 columns, 4 spaces per tab, line numbers shown.
    fn default() -> (r: LayoutConfig)
        ensures
            r@ == (LayoutParams {
                page_height_lines: 48,
                wrap_width: 85,
                tab_width: 4,
                show_line_numbers: true,
            }),
    {
        LayoutConfig {
            page_height_lines: DEFAULT_PAGE_HEIGHT_LINES,
            wrap_width: DEFAULT_WRAP_WIDTH,
            tab_width: DEFAULT_TAB_WIDTH,
            show_line_numbers: true,
        }
    }
}

} // verus!
